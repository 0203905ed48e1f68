//! What is told of inodes, and that it is what reads see and what was set.
use vstd::prelude::*;

use crate::errno::SysErrNo;
use crate::fs::content::MAX_FILE_OFFSET;
use crate::fs::ext4::access::ReadFault;
use crate::fs::ext4::data::{TruncateWork, WriteFault};
use crate::fs::ext4::mount::Ext4Volume;
use crate::fs::ext4::regular::CachedRegularFile;
use crate::fs::ext4::types::{
    kind_of_mode, stored_nsec_is_read_back, told_of, DiskInode, Ext4Metadata,
    Ext4NodeKind,
};
use crate::fs::ext4::volume::Fault;

verus! {

/// The size that is told of a file is the size that reads see: a read gives as
/// many bytes as there are up to that size, and from there on none.
pub proof fn told_size_is_what_reads_see(
    v: &Ext4Volume,
    after: &Ext4Volume,
    ino: u32,
    m: Ext4Metadata,
    offset: usize,
    before: Seq<u8>,
    got: Seq<u8>,
    disk: Seq<u8>,
    n: usize,
)
    requires
        v.told(ino) == Ok::<Ext4Metadata, Fault>(m),
        v.names.inodes@[ino as u128].size <= usize::MAX,
    ensures
        v.size_spec(ino) == Ok::<usize, Fault>(m.size as usize),
        m.size <= usize::MAX,
        m.blocks * 512 >= m.size,
        after.read_done(v, ino, offset, before, got, disk, Ok::<usize, ReadFault>(n)) ==> n == (
        if offset >= m.size {
            0
        } else if m.size - offset < before.len() {
            m.size - offset
        } else {
            before.len() as int
        }),
{
}

/// A file that was written to is told to be as long as the last byte demands,
/// and to have changed then; all else that is told of it stays.
pub proof fn written_file_is_told(
    was: &Ext4Volume,
    after: &Ext4Volume,
    ino: u32,
    offset: usize,
    buf: Seq<u8>,
    disk: Seq<u8>,
    now: u32,
    n: usize,
    old: Ext4Metadata,
    new: Ext4Metadata,
)
    requires
        after.wrote_at(was, ino, offset, buf, disk, now, Ok::<usize, WriteFault>(n)),
        buf.len() > 0,
        was.told(ino) == Ok::<Ext4Metadata, Fault>(old),
        after.told(ino) == Ok::<Ext4Metadata, Fault>(new),
    ensures
        0 < n <= buf.len(),
        new.size == (if old.size < offset + n {
            offset + n
        } else {
            old.size as int
        }),
        new.mtime_sec == now as isize && new.mtime_nsec == 0,
        new.ctime_sec == now as isize && new.ctime_nsec == 0,
        new.ino == ino && new.mode == old.mode && new.nlink == old.nlink && new.uid == old.uid
            && new.gid == old.gid && new.flags == old.flags,
        new.atime_sec == old.atime_sec && new.atime_nsec == old.atime_nsec,
{
    let f = choose|f: CachedRegularFile| #[trigger]
        f.wrote(&was.files().regular[ino as u128], offset, buf, disk, now, Ok(n)) && f.wf()
            && after.file_changed(
            was.files().without_runs(ino).without_image(ino).without_page_range(
                ino,
                offset as int,
                offset + buf.len(),
            ),
            ino,
            f,
        );
    let g = after.files().regular[ino as u128];
    assert(g == (CachedRegularFile { dirty: g.dirty, ..f }));
    assert(after.files().inodes == was.files().inodes);
}

/// A file whose length was set in memory is told to have that length; what it
/// held in front of it stays, and what is new is zeros. For one that is not held
/// in memory the work on disk leads to that length.
pub proof fn truncated_file_is_told(
    was: &Ext4Volume,
    after: &Ext4Volume,
    ino: u32,
    size: u64,
    now: u32,
    work: TruncateWork,
    disk: Seq<u8>,
)
    requires
        was.names.mounted,
        was.names.inodes@.contains_key(ino as u128),
        after.truncate_done(was, ino, size, now, Ok::<TruncateWork, Fault>(work)),
    ensures
        size <= MAX_FILE_OFFSET,
        work == TruncateWork::Cached ==> {
            &&& after.told(ino) is Ok
            &&& after.told(ino)->Ok_0.size == size
            &&& after.told(ino)->Ok_0.mtime_sec == now as isize
            &&& after.size_spec(ino) == Ok::<usize, Fault>(size as usize)
            &&& ({
                let old = was.files().regular[ino as u128].content(disk);
                let new = after.files().regular[ino as u128].content(disk);
                &&& new.len() == size
                &&& forall|i: int|
                    0 <= i < size ==> #[trigger] new[i] == (if i < old.len() {
                        old[i]
                    } else {
                        0
                    })
            })
        },
        work == TruncateWork::Shrink <==> work != TruncateWork::Cached && size
            < was.names.inodes@[ino as u128].size,
        work == TruncateWork::Grow <==> work != TruncateWork::Cached && size
            > was.names.inodes@[ino as u128].size,
        kind_of_mode(was.names.inodes@[ino as u128].mode) == Ext4NodeKind::Regular ==> (work
            == TruncateWork::Cached <==> was.files().regular.contains_key(ino as u128)),
        kind_of_mode(was.names.inodes@[ino as u128].mode) == Ext4NodeKind::Regular
            ==> !after.files().images.contains_key(ino as u128),
        forall|other: u32|
            other != ino ==> #[trigger] after.size_spec(other) == was.size_spec(other),
{
    if work == TruncateWork::Cached {
        let base = was.files().without_pages(ino).without_runs(ino).without_image(ino).unqueued(ino);
        let f = choose|f: CachedRegularFile| #[trigger]
            f.resized_to(&was.files().regular[ino as u128], size as usize, now) && f.wf()
                && after.file_changed(base, ino, f);
        let g = after.files().regular[ino as u128];
        assert(g == (CachedRegularFile { dirty: g.dirty, ..f }));
        assert(g.content(disk) =~= f.content(disk));
        let old = was.files().regular[ino as u128].content(disk);
        assert(f.content(disk) == crate::bytes::resized(old, size as nat));
    }
    assert forall|other: u32| other != ino implies #[trigger] after.size_spec(other)
        == was.size_spec(other) by {
        assert(after.files().inodes == was.files().inodes);
        assert(after.files().regular.contains_key(other as u128)
            == was.files().regular.contains_key(other as u128));
    }
}

/// What is set of an inode is what is told of it, and nothing else changes but
/// the time of the last change.
pub proof fn set_mode_is_told(inode: DiskInode, ino: u32, mode: u32, now: u32)
    ensures
        ({
            let old = told_of(ino, inode);
            let new = told_of(ino, inode.with_mode(mode, now));
            &&& new.mode & 0o7777u32 == mode & 0o7777u32
            &&& new.mode & 0o170000u32 == old.mode & 0o170000u32
            &&& kind_of_mode(inode.with_mode(mode, now).mode) == kind_of_mode(inode.mode)
            &&& new == (Ext4Metadata {
                mode: new.mode,
                ctime_sec: now as isize,
                ctime_nsec: 0,
                ..old
            })
        }),
{
    let m = inode.mode;
    let new = (m & 0o170000u16) | ((mode as u16) & 0o7777u16);
    assert((new as u32) & 0o7777u32 == mode & 0o7777u32 && (new as u32) & 0o170000u32 == (m as u32)
        & 0o170000u32 && new & 0xf000u16 == m & 0xf000u16) by (bit_vector)
        requires
            new == (m & 0o170000u16) | ((mode as u16) & 0o7777u16),
    ;
}

/// An owner that is set is told; what is not set stays. Of a regular file the
/// bit by which programs run as their owner goes.
pub proof fn set_owner_is_told(
    inode: DiskInode,
    ino: u32,
    uid: Option<u32>,
    gid: Option<u32>,
    now: u32,
)
    ensures
        (uid is Some && uid->0 > 65535) || (gid is Some && gid->0 > 65535) <==> inode.with_owner(
            uid,
            gid,
            now,
        ) == Err::<DiskInode, SysErrNo>(SysErrNo::EINVAL),
        inode.with_owner(uid, gid, now) is Ok ==> ({
            let old = told_of(ino, inode);
            let new = told_of(ino, inode.with_owner(uid, gid, now)->Ok_0);
            &&& new.uid == (match uid {
                Some(u) => u,
                None => old.uid,
            })
            &&& new.gid == (match gid {
                Some(g) => g,
                None => old.gid,
            })
            &&& new.mode & 0o1777u32 == old.mode & 0o1777u32
            &&& new.mode & 0o170000u32 == old.mode & 0o170000u32
            &&& kind_of_mode(inode.mode) == Ext4NodeKind::Regular && (uid is Some || gid is Some)
                ==> new.mode & 0o4000u32 == 0
            &&& new == (Ext4Metadata {
                uid: new.uid,
                gid: new.gid,
                mode: new.mode,
                ctime_sec: now as isize,
                ctime_nsec: 0,
                ..old
            })
        }),
{
    let m = inode.mode as u32;
    assert(m <= 0xffff ==> (m & !0o4000u32) <= 0xffff && ((m & !0o4000u32) & !0o2000u32) <= 0xffff && (
    m & !0o4000u32) & 0o4000u32 == 0 && ((m & !0o4000u32) & !0o2000u32) & 0o4000u32 == 0 && (m
        & !0o4000u32) & 0o1777u32 == m & 0o1777u32 && ((m & !0o4000u32) & !0o2000u32) & 0o1777u32
        == m & 0o1777u32 && (m & !0o4000u32) & 0o170000u32 == m & 0o170000u32 && ((m & !0o4000u32)
        & !0o2000u32) & 0o170000u32 == m & 0o170000u32) by (bit_vector);
}

/// Times that are set are told, each on its own, as far as an inode holds them;
/// one that is not given stays.
pub proof fn each_time_is_told(
    inode: DiskInode,
    ino: u32,
    atime: Option<(isize, isize)>,
    mtime: Option<(isize, isize)>,
    now: u32,
)
    requires
        atime is Some ==> 0 <= atime->Some_0.1 <= 999_999_999 && 0 <= atime->Some_0.0 <= u32::MAX,
        mtime is Some ==> 0 <= mtime->Some_0.1 <= 999_999_999 && 0 <= mtime->Some_0.0 <= u32::MAX,
    ensures
        ({
            let old = told_of(ino, inode);
            let new = told_of(ino, inode.with_times(atime, mtime, now));
            &&& (new.atime_sec, new.atime_nsec) == (match atime {
                Some(t) => t,
                None => (old.atime_sec, old.atime_nsec),
            })
            &&& (new.mtime_sec, new.mtime_nsec) == (match mtime {
                Some(t) => t,
                None => (old.mtime_sec, old.mtime_nsec),
            })
            &&& new == (Ext4Metadata {
                atime_sec: new.atime_sec,
                atime_nsec: new.atime_nsec,
                mtime_sec: new.mtime_sec,
                mtime_nsec: new.mtime_nsec,
                ctime_sec: now as isize,
                ctime_nsec: 0,
                ..old
            })
        }),
{
    if atime is Some {
        stored_nsec_is_read_back(atime->Some_0.1);
    }
    if mtime is Some {
        stored_nsec_is_read_back(mtime->Some_0.1);
    }
}

/// What is told of an inode is what the inode holds, unless memory holds
/// something newer: then length and times are those in memory.
pub proof fn told_is_the_newest(v: &Ext4Volume, ino: u32, m: Ext4Metadata)
    requires
        v.told(ino) == Ok::<Ext4Metadata, Fault>(m),
    ensures
        ({
            let i = v.names.inodes@[ino as u128];
            let k = ino as u128;
            &&& m.ino == ino && m.mode == i.mode && m.nlink == i.links && m.uid == i.uid && m.gid
                == i.gid && m.flags == i.flags
            &&& m.atime_sec == i.atime as isize && m.atime_nsec == (i.atime_extra as int / 4) as isize
            &&& v.files().regular.contains_key(k) ==> m.size == v.files().regular[k].size
                && m.mtime_sec == v.files().regular[k].mtime_sec as isize
                && m.ctime_sec == v.files().regular[k].ctime_sec as isize
            &&& !v.files().regular.contains_key(k) ==> m.size == i.size
            &&& !v.files().regular.contains_key(k) && v.files().times.contains_key(k)
                ==> m.mtime_sec == v.files().times[k].mtime as isize && m.ctime_sec
                == v.files().times[k].ctime as isize
            &&& !v.files().regular.contains_key(k) && !v.files().times.contains_key(k)
                ==> m.mtime_sec == i.mtime as isize && m.mtime_nsec == (i.mtime_extra as int
                / 4) as isize && m.ctime_sec == i.ctime as isize && m.ctime_nsec == (
            i.ctime_extra as int / 4) as isize
            &&& m.blocks >= i.blocks
            &&& m.blocks == i.blocks || (m.blocks - 1) * 512 < m.size
        }),
{
}

} // verus!
