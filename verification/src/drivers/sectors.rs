//! Bytes of a disk that can only be read and written by whole sectors.
use vstd::prelude::*;

use crate::bytes::{copy_into, spliced};

verus! {

/// The size of a sector.
pub const SECTOR_SIZE: usize = 512;

/// Whole sectors around some bytes: the first one, how far into it the bytes
/// begin, and how many there are.
#[derive(Clone, Copy, PartialEq, Eq, Structural, Debug)]
pub struct SectorSpan {
    pub sector: usize,
    pub skip: usize,
    pub count: usize,
}

impl SectorSpan {
    /// The sectors around some bytes.
    pub open spec fn around(offset: int, len: int) -> SectorSpan {
        SectorSpan {
            sector: (offset / SECTOR_SIZE as int) as usize,
            skip: (offset % SECTOR_SIZE as int) as usize,
            count: ((offset % SECTOR_SIZE as int + len + SECTOR_SIZE - 1) / SECTOR_SIZE as int) as usize,
        }
    }

    /// The sectors around some bytes.
    pub fn new(offset: usize, len: usize) -> (r: Self)
        requires
            len <= isize::MAX,
        ensures
            r == SectorSpan::around(offset as int, len as int),
            r.skip < SECTOR_SIZE,
            r.skip + len <= r.count * SECTOR_SIZE <= usize::MAX,
            r.count * SECTOR_SIZE < r.skip + len + SECTOR_SIZE,
    {
        let sector: usize = offset / SECTOR_SIZE;
        let skip: usize = offset % SECTOR_SIZE;
        let count: usize = (skip + len + (SECTOR_SIZE - 1)) / SECTOR_SIZE;
        SectorSpan { sector, skip, count }
    }

    /// How many bytes the sectors hold.
    pub fn bytes(&self) -> (n: usize)
        requires
            self.count * SECTOR_SIZE <= usize::MAX,
        ensures
            n == self.count * SECTOR_SIZE,
    {
        self.count * SECTOR_SIZE
    }

    /// Whether the sectors have to be read before some bytes in them are
    /// written, as they hold others.
    pub open spec fn is_partial(&self, len: int) -> bool {
        self.skip != 0 || (self.skip + len) % SECTOR_SIZE as int != 0
    }

    /// Whether the sectors have to be read before some bytes in them are
    /// written.
    pub fn needs_read(&self, len: usize) -> (r: bool)
        requires
            self.skip + len <= usize::MAX,
        ensures
            r == self.is_partial(len as int),
    {
        self.skip != 0 || (self.skip + len) % SECTOR_SIZE != 0
    }

    /// Takes the wanted bytes out of those of the sectors.
    pub fn take_out(&self, sectors: &[u8], buf: &mut [u8])
        requires
            self.skip + old(buf)@.len() <= sectors@.len(),
        ensures
            final(buf)@ == sectors@.subrange(self.skip as int, self.skip + old(buf)@.len()),
    {
        let len: usize = buf.len();
        copy_into(buf, 0, sectors, self.skip, len);
        assert(buf@ =~= sectors@.subrange(self.skip as int, self.skip + len));
    }

    /// Puts bytes among those of the sectors.
    pub fn put_in(&self, sectors: &mut [u8], data: &[u8])
        requires
            self.skip + data@.len() <= old(sectors)@.len(),
        ensures
            final(sectors)@ == spliced(old(sectors)@, self.skip as int, data@),
    {
        copy_into(sectors, self.skip, data, 0, data.len());
        assert(data@.subrange(0, data@.len() as int) =~= data@);
    }
}

/// Reading whole sectors and taking the wanted bytes out gives the bytes of the
/// disk.
pub proof fn read_by_sectors_is_exact(disk: Seq<u8>, offset: int, len: int)
    requires
        0 <= offset,
        0 < len,
        offset <= usize::MAX,
        offset % SECTOR_SIZE as int + len + SECTOR_SIZE <= usize::MAX,
        ({
            let s = SectorSpan::around(offset, len);
            s.sector * SECTOR_SIZE + s.count * SECTOR_SIZE <= disk.len()
        }),
    ensures
        ({
            let s = SectorSpan::around(offset, len);
            let first = s.sector * SECTOR_SIZE;
            disk.subrange(first, first + s.count * SECTOR_SIZE).subrange(
                s.skip as int,
                s.skip + len,
            ) == disk.subrange(offset, offset + len)
        }),
{
    let s = SectorSpan::around(offset, len);
    let first = s.sector * SECTOR_SIZE;
    assert(first + s.skip == offset);
    assert(s.skip + len <= s.count * SECTOR_SIZE);
    assert(disk.subrange(first, first + s.count * SECTOR_SIZE).subrange(
        s.skip as int,
        s.skip + len,
    ) =~= disk.subrange(offset, offset + len));
}

/// Writing whole sectors into which bytes were put changes those bytes of the
/// disk and no others. Sectors that hold no other bytes need not have been read
/// before.
pub proof fn written_by_sectors_is_exact(
    disk: Seq<u8>,
    offset: int,
    data: Seq<u8>,
    sectors: Seq<u8>,
)
    requires
        0 <= offset <= usize::MAX,
        0 < data.len(),
        offset % SECTOR_SIZE as int + data.len() + SECTOR_SIZE <= usize::MAX,
        ({
            let s = SectorSpan::around(offset, data.len() as int);
            let first = s.sector * SECTOR_SIZE;
            &&& first + s.count * SECTOR_SIZE <= disk.len()
            &&& sectors.len() == s.count * SECTOR_SIZE
            &&& s.is_partial(data.len() as int) ==> sectors == disk.subrange(
                first,
                first + s.count * SECTOR_SIZE,
            )
        }),
    ensures
        ({
            let s = SectorSpan::around(offset, data.len() as int);
            spliced(disk, s.sector * SECTOR_SIZE, spliced(sectors, s.skip as int, data)) == spliced(
                disk,
                offset,
                data,
            )
        }),
{
    let s = SectorSpan::around(offset, data.len() as int);
    let first = s.sector * SECTOR_SIZE;
    let new = spliced(sectors, s.skip as int, data);
    assert(first + s.skip == offset);
    assert(s.skip + data.len() <= s.count * SECTOR_SIZE);
    assert(new.len() == sectors.len());
    let a = spliced(disk, first, new);
    let b = spliced(disk, offset, data);
    assert(a.len() == disk.len());
    assert(b.len() == disk.len());
    assert forall|i: int| 0 <= i < disk.len() implies a[i] == b[i] by {
        if first <= i < first + new.len() {
            assert(a[i] == new[i - first]);
            if offset <= i < offset + data.len() {
                assert(new[i - first] == data[i - first - s.skip]);
            } else if s.is_partial(data.len() as int) {
                assert(new[i - first] == sectors[i - first]);
            } else {
                assert(s.count * SECTOR_SIZE == data.len());
            }
        }
    }
    assert(a =~= b);
}

/// How many bytes a disk of so many sectors holds.
pub fn size_of_disk(sectors: u64) -> (r: Option<usize>)
    ensures
        r == (if sectors * SECTOR_SIZE <= usize::MAX {
            Some((sectors * SECTOR_SIZE) as usize)
        } else {
            None
        }),
{
    if sectors > (usize::MAX / SECTOR_SIZE) as u64 {
        return None;
    }
    Some(sectors as usize * SECTOR_SIZE)
}

} // verus!
