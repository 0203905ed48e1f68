//! What holds of the files of a volume as a whole.
use vstd::prelude::*;

use crate::fs::content::MAX_FILE_OFFSET;
use crate::fs::ext4::access::{ImageSource, ReadFault};
use crate::fs::ext4::data::{TruncateWork, WriteFault};
use crate::fs::ext4::mount::{Ext4Volume, FilesModel};
use crate::fs::ext4::pages::readable;
use crate::fs::ext4::regular::{overwritten, shows_disk, CachedRegularFile};
use crate::fs::ext4::types::{
    inode_seconds, kind_of_mode, stored_nsec_is_read_back, told_of, DiskInode,
    Ext4NodeKind,
};
use crate::fs::ext4::volume::{Fault, Load};

verus! {

proof fn lemma_queued_content(f: CachedRegularFile, g: CachedRegularFile, disk: Seq<u8>)
    requires
        g == (CachedRegularFile { dirty: g.dirty, ..f }),
    ensures
        g.content(disk) == f.content(disk),
{
    assert(g.content(disk) =~= f.content(disk));
}

/// A read behind a write gives the bytes that were written, and elsewhere what
/// was there before; what a gap leaves open reads as zeros.
pub proof fn write_is_read_back(
    was: &Ext4Volume,
    mid: &Ext4Volume,
    after: &Ext4Volume,
    ino: u32,
    offset: usize,
    buf: Seq<u8>,
    bytes: Seq<u8>,
    now: u32,
    n: usize,
    at: usize,
    before: Seq<u8>,
    got: Seq<u8>,
    shown: Seq<u8>,
    k: usize,
    disk: Seq<u8>,
)
    requires
        was.wf(),
        mid.wf(),
        offset + buf.len() <= MAX_FILE_OFFSET,
        buf.len() > 0,
        mid.wrote_at(was, ino, offset, buf, bytes, now, Ok::<usize, WriteFault>(n)),
        shows_disk(
            disk,
            offset as int / 4096 * 4096,
            bytes,
            was.files().regular[ino as u128].persisted_size as int,
        ),
        after.read_done(mid, ino, at, before, got, shown, Ok::<usize, ReadFault>(k)),
        shows_disk(
            disk,
            at as int,
            shown,
            mid.files().regular[ino as u128].persisted_size as int,
        ),
    ensures
        was.files().regular.contains_key(ino as u128),
        mid.files().regular.contains_key(ino as u128),
        n <= buf.len(),
        ({
            let f = was.files().regular[ino as u128];
            let g = mid.files().regular[ino as u128];
            let content = f.content(disk);
            &&& g.content(disk) == overwritten(content, offset as int, buf.take(n as int))
            &&& g.size == (if f.size < offset + n {
                (offset + n) as usize
            } else {
                f.size
            })
            &&& k == readable(g.size as int, at as int, before.len() as int)
            &&& forall|i: int|
                0 <= i < k ==> #[trigger] got[i] == (if offset <= at + i < offset + n {
                    buf[at + i - offset]
                } else if at + i < f.size {
                    content[at + i]
                } else {
                    0
                })
        }),
{
    let f = was.files().regular[ino as u128];
    let g = mid.files().regular[ino as u128];
    let h = choose|h: CachedRegularFile| #[trigger]
        h.wrote(&f, offset, buf, bytes, now, Ok(n)) && h.wf() && mid.file_changed(
            was.files().without_runs(ino).without_image(ino).without_page_range(
                ino,
                offset as int,
                offset + buf.len(),
            ),
            ino,
            h,
        );
    assert(g == (CachedRegularFile { dirty: g.dirty, ..h }));
    lemma_queued_content(h, g, disk);
    let content = f.content(disk);
    let c = overwritten(content, offset as int, buf.take(n as int));
    assert(h.content(disk) == c);
    assert(g.content(disk) == c);
    assert forall|i: int| 0 <= i < k implies #[trigger] got[i] == (if offset <= at + i < offset + n {
        buf[at + i - offset]
    } else if at + i < f.size {
        content[at + i]
    } else {
        0
    }) by {
        let part = c.subrange(at as int, at + k);
        assert(got[i] == part[i]);
        assert(part[i] == c[at + i]);
    }
}

/// The bytes of an image, wherever they are to be had, given what the disk
/// holds of the file.
pub open spec fn image_bytes_of(v: &Ext4Volume, source: ImageSource, disk: Seq<u8>) -> Seq<u8> {
    match source {
        ImageSource::Ready(data) => data@,
        ImageSource::Memory(ino) => v.files().regular[ino as u128].content(disk),
        ImageSource::Disk(_, size) => disk.take(size as int),
    }
}

/// A program gets the file as it is: once a file that is not held in memory was
/// cut to `n` bytes, in memory and on disk, and its inode was read again, its
/// image is its first `n` bytes.
pub proof fn cut_file_has_a_cut_image(
    was: &Ext4Volume,
    mid: &Ext4Volume,
    cut: &Ext4Volume,
    after: &Ext4Volume,
    path: Seq<char>,
    target: Seq<char>,
    ino: u32,
    n: u64,
    now: u32,
    disk: Seq<u8>,
    r: Result<Option<ImageSource>, Load>,
)
    requires
        was.names.mounted,
        was.names.inodes@.contains_key(ino as u128),
        kind_of_mode(was.names.inodes@[ino as u128].mode) == Ext4NodeKind::Regular,
        was.names.inodes@[ino as u128].size == disk.len(),
        disk.len() <= MAX_FILE_OFFSET,
        !was.files().regular.contains_key(ino as u128),
        n < disk.len(),
        mid.truncate_done(was, ino, n, now, Ok::<TruncateWork, Fault>(TruncateWork::Shrink)),
        cut.truncation_noted(
            mid,
            ino,
            TruncateWork::Shrink,
            Ext4NodeKind::Regular,
            n,
            now,
        ),
        after.files() == (FilesModel {
            inodes: cut.files().inodes.insert(
                ino as u128,
                DiskInode { size: n, ..was.names.inodes@[ino as u128] },
            ),
            ..cut.files()
        }),
        after.names.resolved_links(path) == Ok::<Seq<char>, Fault>(target),
        after.names.find_spec(target) == Ok::<(u32, Ext4NodeKind), Fault>(
            (ino, Ext4NodeKind::Regular),
        ),
        after.image_found(path, r),
    ensures
        r is Ok && r->Ok_0 is Some,
        image_bytes_of(after, r->Ok_0->0, disk.take(n as int)) == disk.take(n as int),
{
    let m = choose|m: FilesModel|
        #![trigger m.without_inode(ino)]
        (if n == 0 {
            m.is_emptied(mid.files(), ino, true, now)
        } else {
            m == mid.files()
        }) && cut.files() == m.without_inode(ino).without_runs(ino).without_image(ino);
    assert(!after.files().images.contains_key(ino as u128));
    let short = disk.take(n as int);
    assert(short.take(n as int) =~= short);
    if n == 0 {
        let f = after.files().regular[ino as u128];
        assert(f == m.regular[ino as u128]);
        assert(f.content(short) =~= short);
    } else {
        assert(after.files().inodes[ino as u128].size == n);
    }
}

/// Times that are set are read back: seconds as far as an inode holds them, and
/// nanoseconds; the time of access stays unless it is set too.
pub proof fn set_times_are_read_back(inode: DiskInode, ino: u32, sec: isize, nsec: isize, now: u32)
    requires
        0 <= nsec <= 999_999_999,
    ensures
        ({
            let after = told_of(ino, inode.with_times(None, Some((sec, nsec)), now));
            let before = told_of(ino, inode);
            &&& after.mtime_sec == inode_seconds(sec) as isize
            &&& after.mtime_nsec == nsec
            &&& after.atime_sec == before.atime_sec && after.atime_nsec == before.atime_nsec
            &&& after.ctime_sec == now as isize
            &&& after.ctime_nsec == 0
        }),
{
    stored_nsec_is_read_back(nsec);
}

} // verus!
