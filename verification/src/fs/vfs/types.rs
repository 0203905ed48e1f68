//! What is told of the nodes and file systems of the tree, and who may do what
//! with them.
use vstd::prelude::*;
use vstd::utf8::encode_utf8;

use crate::errno::SysErrNo;
use crate::fs::ext4::types::{Ext4Metadata, Ext4NodeKind};
use crate::fs::fd::descriptor::VfsNodeKind;
use crate::fs::node::{FileTimes, MemNodeMetadata, MemSpecialKind};
use crate::fs::vfat::VfatMetadata;
use crate::task::{Credentials, Timestamp};

verus! {

/// The bits of a mode that say what a node is.
pub const S_IFMT: u32 = 0o170000;

/// A directory.
pub const S_IFDIR: u32 = 0o040000;

/// A named pipe.
pub const S_IFIFO: u32 = 0o010000;

/// A character device.
pub const S_IFCHR: u32 = 0o020000;

/// A block device.
pub const S_IFBLK: u32 = 0o060000;

/// A regular file.
pub const S_IFREG: u32 = 0o100000;

/// A symbolic link.
pub const S_IFLNK: u32 = 0o120000;

/// A socket.
pub const S_IFSOCK: u32 = 0o140000;

/// Leave to read.
pub const R_OK: usize = 4;

/// Leave to write.
pub const W_OK: usize = 2;

/// Leave to execute or to search.
pub const X_OK: usize = 1;

/// What is told of a file system.
#[derive(Clone, Copy, PartialEq, Eq, Structural, Debug)]
pub struct VfsStatFs {
    pub f_type: usize,
    pub f_bsize: usize,
    pub f_blocks: usize,
    pub f_bfree: usize,
    pub f_bavail: usize,
    pub f_files: usize,
    pub f_ffree: usize,
    pub f_namelen: usize,
    pub f_frsize: usize,
    pub f_flags: usize,
}

/// What is told of a node.
#[derive(Clone, Copy, PartialEq, Eq, Structural, Debug)]
pub struct VfsMetadata {
    pub ino: u64,
    pub kind: VfsNodeKind,
    pub mode: u32,
    pub nlink: u32,
    pub uid: u32,
    pub gid: u32,
    pub rdev_major: u32,
    pub rdev_minor: u32,
    pub size: u64,
    pub blocks: u64,
    pub atime_sec: isize,
    pub atime_nsec: isize,
    pub mtime_sec: isize,
    pub mtime_nsec: isize,
    pub ctime_sec: isize,
    pub ctime_nsec: isize,
}

/// Which of the identities of a task counts.
#[derive(Clone, Copy, PartialEq, Eq, Structural, Debug)]
pub enum CredentialIdentity {
    Real,
    Effective,
    Filesystem,
}

impl CredentialIdentity {
    /// The user that counts.
    pub open spec fn user(self, cred: &Credentials) -> u32 {
        match self {
            CredentialIdentity::Real => cred.real_uid,
            CredentialIdentity::Effective => cred.effective_uid,
            CredentialIdentity::Filesystem => cred.fsuid,
        }
    }

    /// Whether the task belongs to a group.
    pub open spec fn belongs(self, cred: &Credentials, gid: u32) -> bool {
        match self {
            CredentialIdentity::Real => cred.in_group(gid, false),
            CredentialIdentity::Effective => cred.in_group(gid, true),
            CredentialIdentity::Filesystem => cred.in_filesystem_group(gid),
        }
    }

    /// The effective or the real identity.
    pub fn from_effective_flag(effective: bool) -> (r: Self)
        ensures
            r == (if effective {
                CredentialIdentity::Effective
            } else {
                CredentialIdentity::Real
            }),
    {
        if effective {
            CredentialIdentity::Effective
        } else {
            CredentialIdentity::Real
        }
    }

    fn uid(self, cred: &Credentials) -> (r: u32)
        ensures
            r == self.user(cred),
    {
        match self {
            CredentialIdentity::Real => cred.real_uid,
            CredentialIdentity::Effective => cred.effective_uid,
            CredentialIdentity::Filesystem => cred.fsuid,
        }
    }

    fn is_in_group(self, cred: &Credentials, gid: u32) -> (r: bool)
        ensures
            r == self.belongs(cred, gid),
    {
        match self {
            CredentialIdentity::Real => cred.is_in_group(gid, false),
            CredentialIdentity::Effective => cred.is_in_group(gid, true),
            CredentialIdentity::Filesystem => cred.is_in_filesystem_group(gid),
        }
    }
}

/// How far to the right the bits of a mode are that count for a task.
pub open spec fn class_shift(meta: &VfsMetadata, cred: &Credentials, identity: CredentialIdentity) -> u32 {
    if identity.user(cred) == meta.uid {
        6
    } else if identity.belongs(cred, meta.gid) {
        3
    } else {
        0
    }
}

/// Whether a task may use a node in some ways: the superuser in all, but for the
/// execution of a file that nobody may execute; others as the mode says.
pub open spec fn permitted(
    meta: &VfsMetadata,
    cred: &Credentials,
    access_mode: usize,
    identity: CredentialIdentity,
) -> bool {
    if identity.user(cred) == 0 {
        !((access_mode & X_OK) != 0 && meta.kind == VfsNodeKind::Regular && (meta.mode & 0o111)
            == 0)
    } else {
        let perm = (meta.mode >> class_shift(meta, cred, identity)) & 0o7;
        &&& (access_mode & R_OK) != 0 ==> perm & 4 != 0
        &&& (access_mode & W_OK) != 0 ==> perm & 2 != 0
        &&& (access_mode & X_OK) != 0 ==> perm & 1 != 0
    }
}

/// Whether a task may use a node in some ways.
pub fn check_metadata_access_with_identity(
    meta: &VfsMetadata,
    cred: &Credentials,
    access_mode: usize,
    identity: CredentialIdentity,
) -> (r: Result<(), SysErrNo>)
    ensures
        r == (if permitted(meta, cred, access_mode, identity) {
            Ok::<(), SysErrNo>(())
        } else {
            Err(SysErrNo::EACCES)
        }),
{
    let uid: u32 = identity.uid(cred);
    if uid == 0 {
        if (access_mode & X_OK) != 0 && meta.kind == VfsNodeKind::Regular && (meta.mode & 0o111)
            == 0 {
            return Err(SysErrNo::EACCES);
        }
        return Ok(());
    }
    let shift: u32 = if uid == meta.uid {
        6
    } else if identity.is_in_group(cred, meta.gid) {
        3
    } else {
        0
    };
    let perm: u32 = (meta.mode >> shift) & 0o7;
    if (access_mode & R_OK) != 0 && perm & 4 == 0 {
        return Err(SysErrNo::EACCES);
    }
    if (access_mode & W_OK) != 0 && perm & 2 == 0 {
        return Err(SysErrNo::EACCES);
    }
    if (access_mode & X_OK) != 0 && perm & 1 == 0 {
        return Err(SysErrNo::EACCES);
    }
    Ok(())
}

/// Whether a task may use a node in some ways, by its real identity.
pub fn check_metadata_access(meta: &VfsMetadata, cred: &Credentials, access_mode: usize) -> (r:
    Result<(), SysErrNo>)
    ensures
        r == (if permitted(meta, cred, access_mode, CredentialIdentity::Real) {
            Ok::<(), SysErrNo>(())
        } else {
            Err(SysErrNo::EACCES)
        }),
{
    check_metadata_access_with_identity(meta, cred, access_mode, CredentialIdentity::Real)
}

/// Whether a task may use a node in some ways, by its effective or its real
/// identity.
pub fn check_metadata_access_with_effective(
    meta: &VfsMetadata,
    cred: &Credentials,
    access_mode: usize,
    effective: bool,
) -> (r: Result<(), SysErrNo>)
    ensures
        r == (if permitted(
            meta,
            cred,
            access_mode,
            if effective {
                CredentialIdentity::Effective
            } else {
                CredentialIdentity::Real
            },
        ) {
            Ok::<(), SysErrNo>(())
        } else {
            Err(SysErrNo::EACCES)
        }),
{
    check_metadata_access_with_identity(
        meta,
        cred,
        access_mode,
        CredentialIdentity::from_effective_flag(effective),
    )
}

/// Who may use a node in some ways may use it in fewer.
pub proof fn less_is_permitted_too(
    meta: &VfsMetadata,
    cred: &Credentials,
    more: usize,
    less: usize,
    identity: CredentialIdentity,
)
    requires
        permitted(meta, cred, more, identity),
        less & more == less,
    ensures
        permitted(meta, cred, less, identity),
{
    assert((less & 4 != 0 ==> more & 4 != 0) && (less & 2 != 0 ==> more & 2 != 0) && (less & 1 != 0
        ==> more & 1 != 0)) by (bit_vector)
        requires
            less & more == less,
    ;
}

/// Whether a task may read a file without its time of access being set.
pub fn check_noatime_permission(meta: &VfsMetadata, cred: &Credentials) -> (r: Result<(), SysErrNo>)
    ensures
        r == (if cred.fsuid == 0 || cred.fsuid == meta.uid {
            Ok::<(), SysErrNo>(())
        } else {
            Err(SysErrNo::EPERM)
        }),
{
    if cred.fsuid == 0 || cred.fsuid == meta.uid {
        Ok(())
    } else {
        Err(SysErrNo::EPERM)
    }
}

/// A hash of bytes: each one is mixed in and spread by a multiplication.
pub open spec fn hash_of(bytes: Seq<u8>) -> u64
    decreases bytes.len(),
{
    if bytes.len() == 0 {
        1469598103934665603
    } else {
        u64::wrapping_mul(hash_of(bytes.drop_last()) ^ (bytes.last() as u64), 1099511628211)
    }
}

/// The inode number of a node that has none of its own: a hash of its name.
pub open spec fn made_up_inode(name: Seq<char>) -> u64 {
    hash_of(encode_utf8(name)) & 0x7fff_ffff
}

/// The inode number of a node that has none of its own.
pub fn pseudo_inode(path: &str) -> (r: u64)
    ensures
        r == made_up_inode(path@),
{
    let bytes = path.as_bytes();
    let mut hash: u64 = 1469598103934665603;
    let mut i: usize = 0;
    assert(bytes@.take(0) =~= Seq::<u8>::empty());
    while i < bytes.len()
        invariant
            0 <= i <= bytes@.len(),
            hash == hash_of(bytes@.take(i as int)),
        decreases bytes@.len() - i,
    {
        assert(bytes@.take(i + 1).drop_last() =~= bytes@.take(i as int));
        hash = (hash ^ (bytes[i] as u64)).wrapping_mul(1099511628211);
        i = i + 1;
    }
    assert(bytes@.take(i as int) =~= bytes@);
    hash & 0x7fff_ffff
}

/// How many blocks of 512 bytes a size takes.
pub open spec fn blocks_for(size: u64) -> u64 {
    ((size + 511) / 512) as u64
}

/// How many blocks of 512 bytes a size takes.
pub fn regular_blocks(size: u64) -> (r: u64)
    ensures
        r == blocks_for(size),
{
    if size % 512 == 0 {
        size / 512
    } else {
        size / 512 + 1
    }
}

/// What a kind of node of the volume is in the tree.
pub open spec fn kind_told(kind: Ext4NodeKind) -> VfsNodeKind {
    match kind {
        Ext4NodeKind::Regular => VfsNodeKind::Regular,
        Ext4NodeKind::Directory => VfsNodeKind::Directory,
        Ext4NodeKind::Symlink => VfsNodeKind::Symlink,
        Ext4NodeKind::Other => VfsNodeKind::Other,
    }
}

/// What a kind of node of the volume is in the tree.
pub fn kind_from_ext4(kind: Ext4NodeKind) -> (r: VfsNodeKind)
    ensures
        r == kind_told(kind),
{
    match kind {
        Ext4NodeKind::Regular => VfsNodeKind::Regular,
        Ext4NodeKind::Directory => VfsNodeKind::Directory,
        Ext4NodeKind::Symlink => VfsNodeKind::Symlink,
        Ext4NodeKind::Other => VfsNodeKind::Other,
    }
}

/// What a mode says a node is.
pub open spec fn kind_by_mode(mode: u32) -> VfsNodeKind {
    if mode & S_IFMT == S_IFREG {
        VfsNodeKind::Regular
    } else if mode & S_IFMT == S_IFDIR {
        VfsNodeKind::Directory
    } else if mode & S_IFMT == S_IFLNK {
        VfsNodeKind::Symlink
    } else {
        VfsNodeKind::Other
    }
}

/// What is told of a node of the volume.
pub open spec fn from_ext4(meta: Ext4Metadata) -> VfsMetadata {
    VfsMetadata {
        ino: meta.ino as u64,
        kind: kind_by_mode(meta.mode),
        mode: meta.mode,
        nlink: meta.nlink,
        uid: meta.uid,
        gid: meta.gid,
        rdev_major: 0,
        rdev_minor: 0,
        size: meta.size,
        blocks: if meta.blocks >= blocks_for(meta.size) {
            meta.blocks
        } else {
            blocks_for(meta.size)
        },
        atime_sec: meta.atime_sec,
        atime_nsec: meta.atime_nsec,
        mtime_sec: meta.mtime_sec,
        mtime_nsec: meta.mtime_nsec,
        ctime_sec: meta.ctime_sec,
        ctime_nsec: meta.ctime_nsec,
    }
}

/// What is told of a node of the volume.
pub fn metadata_from_ext4(meta: Ext4Metadata) -> (r: VfsMetadata)
    ensures
        r == from_ext4(meta),
{
    let bits: u32 = meta.mode & S_IFMT;
    let kind = if bits == S_IFREG {
        VfsNodeKind::Regular
    } else if bits == S_IFDIR {
        VfsNodeKind::Directory
    } else if bits == S_IFLNK {
        VfsNodeKind::Symlink
    } else {
        VfsNodeKind::Other
    };
    let needed: u64 = regular_blocks(meta.size);
    VfsMetadata {
        ino: meta.ino as u64,
        kind,
        mode: meta.mode,
        nlink: meta.nlink,
        uid: meta.uid,
        gid: meta.gid,
        rdev_major: 0,
        rdev_minor: 0,
        size: meta.size,
        blocks: if meta.blocks >= needed {
            meta.blocks
        } else {
            needed
        },
        atime_sec: meta.atime_sec,
        atime_nsec: meta.atime_nsec,
        mtime_sec: meta.mtime_sec,
        mtime_nsec: meta.mtime_nsec,
        ctime_sec: meta.ctime_sec,
        ctime_nsec: meta.ctime_nsec,
    }
}

/// What is told of a node of which nothing but this is recorded.
pub open spec fn synthetic(
    ino_key: Seq<char>,
    kind: VfsNodeKind,
    mode: u32,
    size: u64,
    nlink: u32,
    now: Timestamp,
) -> VfsMetadata {
    VfsMetadata {
        ino: made_up_inode(ino_key),
        kind,
        mode,
        nlink,
        uid: 0,
        gid: 0,
        rdev_major: 0,
        rdev_minor: 0,
        size,
        blocks: blocks_for(size),
        atime_sec: now.sec,
        atime_nsec: now.nsec,
        mtime_sec: now.sec,
        mtime_nsec: now.nsec,
        ctime_sec: now.sec,
        ctime_nsec: now.nsec,
    }
}

/// What is told of a node of which nothing but this is recorded.
pub fn synthetic_metadata(
    ino_key: &str,
    kind: VfsNodeKind,
    mode: u32,
    size: u64,
    nlink: u32,
    now: Timestamp,
) -> (r: VfsMetadata)
    ensures
        r == synthetic(ino_key@, kind, mode, size, nlink, now),
{
    VfsMetadata {
        ino: pseudo_inode(ino_key),
        kind,
        mode,
        nlink,
        uid: 0,
        gid: 0,
        rdev_major: 0,
        rdev_minor: 0,
        size,
        blocks: regular_blocks(size),
        atime_sec: now.sec,
        atime_nsec: now.nsec,
        mtime_sec: now.sec,
        mtime_nsec: now.nsec,
        ctime_sec: now.sec,
        ctime_nsec: now.nsec,
    }
}

/// What is told of a device.
pub open spec fn device_told(
    path: Seq<char>,
    mode: u32,
    major: u32,
    minor: u32,
    now: Timestamp,
) -> VfsMetadata {
    VfsMetadata {
        rdev_major: major,
        rdev_minor: minor,
        ..synthetic(path, VfsNodeKind::Other, mode, 0, 1, now)
    }
}

/// What is told of a character device.
pub fn metadata_for_char_device(path: &str, major: u32, minor: u32, now: Timestamp) -> (r:
    VfsMetadata)
    ensures
        r == device_told(path@, S_IFCHR | 0o666, major, minor, now),
{
    let meta = synthetic_metadata(path, VfsNodeKind::Other, S_IFCHR | 0o666, 0, 1, now);
    VfsMetadata { rdev_major: major, rdev_minor: minor, ..meta }
}

/// What is told of a block device.
pub fn metadata_for_block_device_number(path: &str, major: u32, minor: u32, now: Timestamp) -> (r:
    VfsMetadata)
    ensures
        r == device_told(path@, S_IFBLK | 0o600, major, minor, now),
{
    let meta = synthetic_metadata(path, VfsNodeKind::Other, S_IFBLK | 0o600, 0, 1, now);
    VfsMetadata { rdev_major: major, rdev_minor: minor, ..meta }
}

/// What is told of a node of a FAT volume.
pub open spec fn from_vfat(path: Seq<char>, meta: VfatMetadata, now: Timestamp) -> VfsMetadata {
    synthetic(
        path,
        if meta.is_dir {
            VfsNodeKind::Directory
        } else {
            VfsNodeKind::Regular
        },
        if meta.is_dir {
            S_IFDIR | 0o755
        } else if meta.readonly {
            S_IFREG | 0o444
        } else {
            S_IFREG | 0o644
        },
        meta.size as u64,
        1,
        now,
    )
}

/// What is told of a node of a FAT volume.
pub fn metadata_from_vfat(path: &str, meta: VfatMetadata, now: Timestamp) -> (r: VfsMetadata)
    ensures
        r == from_vfat(path@, meta, now),
{
    synthetic_metadata(
        path,
        if meta.is_dir {
            VfsNodeKind::Directory
        } else {
            VfsNodeKind::Regular
        },
        if meta.is_dir {
            S_IFDIR | 0o755
        } else if meta.readonly {
            S_IFREG | 0o444
        } else {
            S_IFREG | 0o644
        },
        meta.size as u64,
        1,
        now,
    )
}

/// What is told of an in-memory node that is no device.
pub open spec fn node_told(
    ino_key: Seq<char>,
    kind: VfsNodeKind,
    type_bits: u32,
    size: u64,
    node: MemNodeMetadata,
    nlink: u32,
    now: Timestamp,
) -> VfsMetadata {
    VfsMetadata {
        uid: node.uid,
        gid: node.gid,
        ..synthetic(ino_key, kind, type_bits | (node.mode & 0o7777), size, nlink, now)
    }
}

/// What is told of an in-memory node that is no device.
pub fn metadata_for_mem_node(
    ino_key: &str,
    kind: VfsNodeKind,
    type_bits: u32,
    size: u64,
    node: MemNodeMetadata,
    nlink: u32,
    now: Timestamp,
) -> (r: VfsMetadata)
    ensures
        r == node_told(ino_key@, kind, type_bits, size, node, nlink, now),
{
    let meta = synthetic_metadata(ino_key, kind, type_bits | (node.mode & 0o7777), size, nlink, now);
    VfsMetadata { uid: node.uid, gid: node.gid, ..meta }
}

/// The type bits of a special node.
pub open spec fn special_bits(kind: MemSpecialKind) -> u32 {
    match kind {
        MemSpecialKind::Fifo => S_IFIFO,
        MemSpecialKind::Socket => S_IFSOCK,
        MemSpecialKind::CharDevice { .. } => S_IFCHR,
        MemSpecialKind::BlockDevice { .. } => S_IFBLK,
    }
}

/// The device numbers of a special node.
pub open spec fn special_numbers(kind: MemSpecialKind) -> (u32, u32) {
    match kind {
        MemSpecialKind::CharDevice { major, minor } => (major, minor),
        MemSpecialKind::BlockDevice { major, minor } => (major, minor),
        _ => (0, 0),
    }
}

/// What is told of a special node.
pub open spec fn special_told(
    name: Seq<char>,
    kind: MemSpecialKind,
    node: MemNodeMetadata,
    now: Timestamp,
) -> VfsMetadata {
    let (major, minor) = special_numbers(kind);
    VfsMetadata {
        rdev_major: major,
        rdev_minor: minor,
        ..node_told(name, VfsNodeKind::Other, special_bits(kind), 0, node, 1, now)
    }
}

/// What is told of a special node.
pub fn metadata_for_mem_special(
    name: &str,
    kind: MemSpecialKind,
    node: MemNodeMetadata,
    now: Timestamp,
) -> (r: VfsMetadata)
    ensures
        r == special_told(name@, kind, node, now),
{
    let (bits, major, minor): (u32, u32, u32) = match kind {
        MemSpecialKind::Fifo => (S_IFIFO, 0, 0),
        MemSpecialKind::Socket => (S_IFSOCK, 0, 0),
        MemSpecialKind::CharDevice { major, minor } => (S_IFCHR, major, minor),
        MemSpecialKind::BlockDevice { major, minor } => (S_IFBLK, major, minor),
    };
    let meta = metadata_for_mem_node(name, VfsNodeKind::Other, bits, 0, node, 1, now);
    VfsMetadata { rdev_major: major, rdev_minor: minor, ..meta }
}

impl VfsMetadata {
    /// The same with other times.
    pub open spec fn at_times(self, times: FileTimes) -> VfsMetadata {
        VfsMetadata {
            atime_sec: times.atime_sec,
            atime_nsec: times.atime_nsec,
            mtime_sec: times.mtime_sec,
            mtime_nsec: times.mtime_nsec,
            ctime_sec: times.ctime_sec,
            ctime_nsec: times.ctime_nsec,
            ..self
        }
    }

    /// The same with other times.
    pub fn with_times(self, times: FileTimes) -> (r: VfsMetadata)
        ensures
            r == self.at_times(times),
    {
        VfsMetadata {
            atime_sec: times.atime_sec,
            atime_nsec: times.atime_nsec,
            mtime_sec: times.mtime_sec,
            mtime_nsec: times.mtime_nsec,
            ctime_sec: times.ctime_sec,
            ctime_nsec: times.ctime_nsec,
            ..self
        }
    }
}

} // verus!
