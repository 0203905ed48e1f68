//! Devices that are read and written by bytes, and parts of them with a cache
//! of blocks.
use vstd::prelude::*;

use crate::aged::{Aged, AgedCache, AgedModel};
use crate::bytes::{copy_into, copy_of, copy_range, zero_bytes, zeros};
use crate::errno::SysErrNo;

verus! {

/// The size of a block.
pub const BLOCK_SIZE: usize = 4096;

/// The size of a sector.
pub const SECTOR_SIZE: usize = 512;

/// How many blocks are cached.
pub const BLOCK_CACHE_LIMIT: usize = 32768;

/// A device that holds bytes.
pub trait RawBlockDevice {
    /// What the device holds: anything, unless it is said.
    closed spec fn contents(&self) -> Seq<u8> {
        arbitrary()
    }

    /// The error that reading some bytes gives, if any.
    closed spec fn fault(&self, offset: nat, len: nat) -> Option<SysErrNo> {
        arbitrary()
    }

    /// The error that writing some bytes gives, if any.
    closed spec fn write_fault(&self, offset: nat, data: Seq<u8>) -> Option<SysErrNo> {
        arbitrary()
    }

    /// The size that the device tells, if it tells one.
    closed spec fn told_size(&self) -> Option<usize> {
        arbitrary()
    }

    /// Reads bytes.
    fn read_at(&self, offset: usize, buf: &mut [u8]) -> (r: Result<(), SysErrNo>)
        ensures
            final(buf)@.len() == old(buf)@.len(),
            match self.fault(offset as nat, old(buf)@.len()) {
                Some(e) => r == Err::<(), SysErrNo>(e),
                None => r is Ok && (old(buf)@.len() > 0 ==> offset + old(buf)@.len()
                    <= self.contents().len() && final(buf)@ == self.contents().subrange(
                    offset as int,
                    offset + old(buf)@.len(),
                )),
            },
    ;

    /// Writes bytes. Whatever comes of it, the other sectors stay, and so do the
    /// bytes around in the same sectors, if those can be read.
    fn write_at(&mut self, offset: usize, data: &[u8]) -> (r: Result<(), SysErrNo>)
        ensures
            r == (match old(self).write_fault(offset as nat, data@) {
                Some(e) => Err::<(), SysErrNo>(e),
                None => Ok::<(), SysErrNo>(()),
            }),
            final(self).contents().len() == old(self).contents().len(),
            forall|p: int|
                0 <= p < old(self).contents().len() && stays(
                    old(self).fault(
                        sectors_start(offset as int) as nat,
                        (sectors_end(offset as int, data@.len() as int) - sectors_start(
                            offset as int,
                        )) as nat,
                    ),
                    offset as int,
                    data@.len() as int,
                    p,
                ) ==> #[trigger] final(self).contents()[p] == old(self).contents()[p],
            r is Ok && data@.len() > 0 ==> offset + data@.len() <= old(self).contents().len()
                && final(self).contents().subrange(offset as int, offset + data@.len()) == data@,
    ;

    /// The size of the device, if it tells one.
    fn size_bytes(&self) -> (r: Option<usize>)
        ensures
            r == self.told_size(),
    ;
}

/// What a device gives for a read: `None` for an error.
pub open spec fn device_bytes<D: RawBlockDevice>(dev: &D, offset: int, len: int) -> Option<Seq<u8>> {
    if dev.fault(offset as nat, len as nat) is Some {
        None
    } else if len <= 0 {
        Some(Seq::empty())
    } else {
        Some(dev.contents().subrange(offset, offset + len))
    }
}

/// The first byte of the first sector that some bytes touch.
pub open spec fn sectors_start(offset: int) -> int {
    offset / 512 * 512
}

/// The byte behind the last sector that some bytes touch.
pub open spec fn sectors_end(offset: int, len: int) -> int {
    (offset + len + 511) / 512 * 512
}

/// Whether a byte of a device stays when some bytes are written; `around` is the
/// error that reading the sectors of these gives.
pub open spec fn stays(around: Option<SysErrNo>, offset: int, len: int, p: int) -> bool {
    len == 0 || p < sectors_start(offset) || sectors_end(offset, len) <= p || (!(offset <= p
        < offset + len) && around is None)
}

/// A device in memory.
pub struct RamDisk {
    pub bytes: Vec<u8>,
}

impl RawBlockDevice for RamDisk {
    open spec fn contents(&self) -> Seq<u8> {
        self.bytes@
    }

    open spec fn fault(&self, offset: nat, len: nat) -> Option<SysErrNo> {
        if offset + len > self.bytes@.len() {
            Some(SysErrNo::EIO)
        } else {
            None
        }
    }

    open spec fn write_fault(&self, offset: nat, data: Seq<u8>) -> Option<SysErrNo> {
        self.fault(offset, data.len())
    }

    open spec fn told_size(&self) -> Option<usize> {
        Some(self.bytes@.len() as usize)
    }

    fn read_at(&self, offset: usize, buf: &mut [u8]) -> (r: Result<(), SysErrNo>) {
        let n: usize = buf.len();
        if offset > self.bytes.len() || n > self.bytes.len() - offset {
            return Err(SysErrNo::EIO);
        }
        let ghost start = buf@;
        copy_into(buf, 0, self.bytes.as_slice(), offset, n);
        assert(buf@ =~= self.bytes@.subrange(offset as int, offset + n));
        Ok(())
    }

    fn write_at(&mut self, offset: usize, data: &[u8]) -> (r: Result<(), SysErrNo>) {
        let n: usize = data.len();
        if offset > self.bytes.len() || n > self.bytes.len() - offset {
            return Err(SysErrNo::EIO);
        }
        copy_into(self.bytes.as_mut_slice(), offset, data, 0, n);
        assert(self.bytes@.subrange(offset as int, offset + n) =~= data@);
        Ok(())
    }

    fn size_bytes(&self) -> (r: Option<usize>) {
        Some(self.bytes.len())
    }
}

/// The blocks of a part of a device that were read.
pub struct BlockCache {
    blocks: AgedCache<Vec<u8>>,
}

/// A cache of blocks with the blocks as sequences.
pub open spec fn in_bytes(m: AgedModel<Vec<u8>>) -> AgedModel<Seq<u8>> {
    AgedModel {
        entries: m.entries.map_values(
            |a: Aged<Vec<u8>>| Aged { value: a.value@, last_used: a.last_used },
        ),
        next_age: m.next_age,
    }
}

proof fn lemma_touched_in_bytes(m: AgedModel<Vec<u8>>, key: u128)
    ensures
        in_bytes(m.touched(key)) == in_bytes(m).touched(key),
{
    assert(in_bytes(m.touched(key)).entries =~= in_bytes(m).touched(key).entries);
}

proof fn lemma_evicted_in_bytes(m: AgedModel<Vec<u8>>)
    ensures
        in_bytes(m.evicted()) == in_bytes(m).evicted(),
{
    let b = in_bytes(m);
    assert forall|k: u128| m.is_oldest(k) == b.is_oldest(k) by {
        if m.is_oldest(k) {
            assert forall|q: u128| #[trigger] b.entries.contains_key(q) implies b.entries[k].last_used
                < b.entries[q].last_used || (b.entries[k].last_used == b.entries[q].last_used && k
                <= q) by {
                assert(m.entries.contains_key(q));
            }
        }
        if b.is_oldest(k) {
            assert forall|q: u128| #[trigger] m.entries.contains_key(q) implies m.entries[k].last_used
                < m.entries[q].last_used || (m.entries[k].last_used == m.entries[q].last_used && k
                <= q) by {
                assert(b.entries.contains_key(q));
            }
        }
    }
    if exists|k: u128| m.is_oldest(k) {
        let x = choose|k: u128| m.is_oldest(k);
        assert(b.is_oldest(x));
        let y = choose|k: u128| b.is_oldest(k);
        assert(m.is_oldest(y));
        assert(m.entries.contains_key(x) && m.entries.contains_key(y));
        assert(x == y);
    } else {
        assert(!(exists|k: u128| b.is_oldest(k)));
    }
    assert(in_bytes(m.evicted()).entries =~= b.evicted().entries);
}

proof fn lemma_inserted_in_bytes(m: AgedModel<Vec<u8>>, key: u128, data: Vec<u8>, limit: nat)
    ensures
        in_bytes(m.inserted(key, data, limit)) == in_bytes(m).inserted(key, data@, limit),
{
    lemma_evicted_in_bytes(m);
    assert(in_bytes(m).entries.dom() =~= m.entries.dom());
    assert(in_bytes(m.inserted(key, data, limit)).entries =~= in_bytes(m).inserted(
        key,
        data@,
        limit,
    ).entries);
}

impl View for BlockCache {
    type V = AgedModel<Seq<u8>>;

    closed spec fn view(&self) -> AgedModel<Seq<u8>> {
        in_bytes(self.blocks@)
    }
}

/// A cache of blocks without those that have a byte of a range.
pub open spec fn without_blocks(m: AgedModel<Seq<u8>>, start: int, len: int) -> AgedModel<Seq<u8>> {
    if start + len > usize::MAX {
        AgedModel { entries: Map::empty(), ..m }
    } else if len == 0 {
        m
    } else {
        AgedModel {
            entries: m.entries.remove_keys(
                Set::new(|k: u128| start / 4096 * 4096 <= k <= (start + len - 1) / 4096 * 4096),
            ),
            ..m
        }
    }
}

impl BlockCache {
    /// The keys are in order.
    pub closed spec fn wf(&self) -> bool {
        self.blocks.wf()
    }

    /// No blocks.
    pub fn new() -> (r: Self)
        ensures
            r.wf(),
            r@ == (AgedModel::<Seq<u8>> { entries: Map::empty(), next_age: 1 }),
    {
        let r = BlockCache { blocks: AgedCache::new() };
        assert(r@.entries =~= Map::<u128, Aged<Seq<u8>>>::empty());
        r
    }

    /// A copy of a block; that counts as use.
    pub fn get(&mut self, block: usize) -> (r: Option<Vec<u8>>)
        requires
            old(self).wf(),
        ensures
            final(self).wf(),
            final(self)@ == old(self)@.touched(block as u128),
            match r {
                Some(data) => old(self)@.entries.contains_key(block as u128) && data@
                    == old(self)@.entries[block as u128].value,
                None => !old(self)@.entries.contains_key(block as u128),
            },
    {
        let r = match self.blocks.peek(block as u128) {
            Some(data) => Some(copy_of(data.as_slice())),
            None => None,
        };
        proof {
            lemma_touched_in_bytes(self.blocks@, block as u128);
        }
        let _ = self.blocks.touch(block as u128);
        r
    }

    /// Caches a block; if there is no room, the one that was not used for the
    /// longest time gives way.
    pub fn insert(&mut self, block: usize, data: Vec<u8>)
        requires
            old(self).wf(),
        ensures
            final(self).wf(),
            final(self)@ == old(self)@.inserted(block as u128, data@, BLOCK_CACHE_LIMIT as nat),
    {
        proof {
            lemma_inserted_in_bytes(self.blocks@, block as u128, data, BLOCK_CACHE_LIMIT as nat);
        }
        self.blocks.insert(block as u128, data, BLOCK_CACHE_LIMIT);
    }

    /// Forgets all blocks with a byte of a range.
    pub fn invalidate_range(&mut self, start: usize, len: usize)
        requires
            old(self).wf(),
        ensures
            final(self).wf(),
            final(self)@ == without_blocks(old(self)@, start as int, len as int),
    {
        let end: usize = match start.checked_add(len) {
            Some(end) => end,
            None => {
                self.blocks.clear();
                assert(self@.entries =~= Map::<u128, Aged<Seq<u8>>>::empty());
                return;
            },
        };
        if start >= end {
            return;
        }
        let first: u128 = (start / BLOCK_SIZE * BLOCK_SIZE) as u128;
        let last: u128 = ((end - 1) / BLOCK_SIZE * BLOCK_SIZE) as u128;
        self.blocks.remove_range(first, last);
        assert(Set::new(|k: u128| first <= k <= last) =~= Set::new(
            |k: u128| start as int / 4096 * 4096 <= k <= (start + len - 1) / 4096 * 4096,
        ));
        assert(self@.entries =~= without_blocks(old(self)@, start as int, len as int).entries);
    }
}

/// All cached blocks have the size of a block.
pub open spec fn whole(cache: AgedModel<Seq<u8>>) -> bool {
    forall|k: u128| #[trigger]
        cache.entries.contains_key(k) ==> cache.entries[k].value.len() == 4096
}

/// All cached blocks are as they are from some byte of a device on.
pub open spec fn holds_blocks(cache: AgedModel<Seq<u8>>, start: int, contents: Seq<u8>) -> bool {
    forall|k: u128| #[trigger]
        cache.entries.contains_key(k) ==> start + k + 4096 <= contents.len()
            && cache.entries[k].value == contents.subrange(start + k, start + k + 4096)
}

/// A part of a device, with the blocks of it that were read.
pub struct BlockRange {
    pub start: usize,
    pub len: Option<usize>,
    pub cache: BlockCache,
}

impl BlockRange {
    /// Where bytes of the part lie on the device.
    pub open spec fn absolute(&self, offset: int, len: int) -> Option<int> {
        if offset + len > usize::MAX || (self.len is Some && offset + len > self.len->0) || self.start
            + offset > usize::MAX {
            None
        } else {
            Some(self.start + offset)
        }
    }

    /// What a read of the part gives.
    pub open spec fn bytes_at<D: RawBlockDevice>(&self, dev: &D, offset: int, len: int) -> Result<
        Seq<u8>,
        SysErrNo,
    > {
        match self.absolute(offset, len) {
            None => Err(SysErrNo::EINVAL),
            Some(at) => match dev.fault(at as nat, len as nat) {
                Some(e) => Err(e),
                None => if len <= 0 {
                    Ok(Seq::empty())
                } else {
                    Ok(dev.contents().subrange(at, at + len))
                },
            },
        }
    }

    /// The cached blocks are whole.
    pub open spec fn wf(&self) -> bool {
        self.cache.wf() && whole(self.cache@)
    }

    /// Every cached block is as it is on the device.
    pub open spec fn shows<D: RawBlockDevice>(&self, dev: &D) -> bool {
        holds_blocks(self.cache@, self.start as int, dev.contents())
    }

    /// The part starts with a sector, and only blocks at multiples of their size
    /// are cached.
    pub open spec fn aligned(&self) -> bool {
        self.start % 512 == 0 && forall|k: u128| #[trigger]
            self.cache@.entries.contains_key(k) ==> k % 4096 == 0
    }

    /// A part of a device, nothing of which was read.
    pub fn new(start: usize, len: Option<usize>) -> (r: Self)
        ensures
            r.start == start,
            r.len == len,
            r.wf(),
            r.cache@ == (AgedModel::<Seq<u8>> { entries: Map::empty(), next_age: 1 }),
    {
        BlockRange { start, len, cache: BlockCache::new() }
    }

    fn checked_abs_range(&self, offset: usize, len: usize) -> (r: Result<usize, SysErrNo>)
        ensures
            match r {
                Ok(at) => self.absolute(offset as int, len as int) == Some(at as int),
                Err(e) => self.absolute(offset as int, len as int) is None && e == SysErrNo::EINVAL,
            },
    {
        let end: usize = match offset.checked_add(len) {
            Some(end) => end,
            None => {
                return Err(SysErrNo::EINVAL);
            },
        };
        match self.len {
            Some(limit) => if end > limit {
                return Err(SysErrNo::EINVAL);
            },
            None => {},
        }
        match self.start.checked_add(offset) {
            Some(at) => Ok(at),
            None => Err(SysErrNo::EINVAL),
        }
    }

    /// Reads bytes of the part.
    pub fn read_at<D: RawBlockDevice>(&self, dev: &D, offset: usize, buf: &mut [u8]) -> (r: Result<
        (),
        SysErrNo,
    >)
        ensures
            final(buf)@.len() == old(buf)@.len(),
            match self.bytes_at(dev, offset as int, old(buf)@.len() as int) {
                Ok(data) => r is Ok && final(buf)@ == data,
                Err(e) => r == Err::<(), SysErrNo>(e),
            },
            r is Ok && old(buf)@.len() > 0 ==> self.start + offset + old(buf)@.len()
                <= dev.contents().len(),
    {
        let n: usize = buf.len();
        proof {
            if n == 0 {
                assert forall|s: Seq<u8>| #[trigger] s.len() == 0 implies s == Seq::<u8>::empty() by {
                    assert(s =~= Seq::<u8>::empty());
                }
            }
        }
        match self.checked_abs_range(offset, n) {
            Ok(at) => dev.read_at(at, buf),
            Err(e) => Err(e),
        }
    }

    /// Writes bytes of the part; the blocks that they touch are read anew.
    pub fn write_at<D: RawBlockDevice>(&mut self, dev: &mut D, offset: usize, data: &[u8]) -> (r:
        Result<(), SysErrNo>)
        requires
            old(self).wf(),
        ensures
            final(self).wf(),
            final(self).start == old(self).start,
            final(self).len == old(self).len,
            final(self).cache@ == without_blocks(
                old(self).cache@,
                offset as int,
                data@.len() as int,
            ),
            final(dev).contents().len() == old(dev).contents().len(),
            match old(self).absolute(offset as int, data@.len() as int) {
                None => r == Err::<(), SysErrNo>(SysErrNo::EINVAL) && *final(dev) == *old(dev),
                Some(at) => {
                    &&& r == (match old(dev).write_fault(at as nat, data@) {
                        Some(e) => Err::<(), SysErrNo>(e),
                        None => Ok::<(), SysErrNo>(()),
                    })
                    &&& forall|p: int|
                        0 <= p < old(dev).contents().len() && stays(
                            old(dev).fault(
                                sectors_start(at) as nat,
                                (sectors_end(at, data@.len() as int) - sectors_start(at)) as nat,
                            ),
                            at,
                            data@.len() as int,
                            p,
                        ) ==> #[trigger] final(dev).contents()[p] == old(dev).contents()[p]
                    &&& r is Ok && data@.len() > 0 ==> at + data@.len() <= old(
                        dev,
                    ).contents().len() && final(dev).contents().subrange(at, at + data@.len())
                        == data@
                },
            },
            old(self).aligned() ==> final(self).aligned(),
            old(self).aligned() && old(self).shows(old(dev)) ==> final(self).shows(final(dev)),
    {
        let ghost cached = self.cache@.entries;
        let ghost was = dev.contents();
        self.cache.invalidate_range(offset, data.len());
        let r = match self.checked_abs_range(offset, data.len()) {
            Ok(at) => dev.write_at(at, data),
            Err(e) => Err(e),
        };
        proof {
            let n = data@.len() as int;
            assert forall|k: u128| #[trigger] self.cache@.entries.contains_key(k) implies
                cached.contains_key(k) && self.cache@.entries[k] == cached[k] by {}
            if old(self).aligned() && old(self).shows(old(dev)) {
                assert forall|k: u128| #[trigger] self.cache@.entries.contains_key(k) implies
                    self.start + k + 4096 <= dev.contents().len() && self.cache@.entries[k].value
                    == dev.contents().subrange(self.start + k, self.start + k + 4096) by {
                    assert(cached.contains_key(k));
                    assert(k % 4096 == 0);
                    let at = self.start + offset;
                    if n > 0 && offset + n <= usize::MAX {
                        assert(!(offset as int / 4096 * 4096 <= k <= (offset + n - 1) / 4096
                            * 4096));
                        lemma_blocks_apart(self.start as int, k as int, offset as int, n);
                    }
                    assert(dev.contents().subrange(self.start + k, self.start + k + 4096)
                        =~= was.subrange(self.start + k, self.start + k + 4096));
                }
            }
        }
        r
    }

    /// What the block at an offset holds: zeros where it cannot be read.
    pub open spec fn block_or_zeros<D: RawBlockDevice>(&self, dev: &D, offset: int) -> Seq<u8> {
        match self.bytes_at(dev, offset, 4096) {
            Ok(data) => data,
            Err(_) => zeros(4096),
        }
    }

    /// What a look at a block gives: as cached, or as the device has it.
    pub open spec fn seen_block<D: RawBlockDevice>(
        &self,
        cache: AgedModel<Seq<u8>>,
        dev: &D,
        offset: int,
    ) -> Seq<u8> {
        if cache.entries.contains_key(offset as u128) {
            cache.entries[offset as u128].value
        } else {
            self.block_or_zeros(dev, offset)
        }
    }

    /// The cache after a look at a block: one that had to be read and could be is
    /// cached then.
    pub open spec fn looked_up<D: RawBlockDevice>(
        &self,
        cache: AgedModel<Seq<u8>>,
        dev: &D,
        offset: int,
    ) -> AgedModel<Seq<u8>> {
        let seen = cache.touched(offset as u128);
        if cache.entries.contains_key(offset as u128) {
            seen
        } else {
            match self.bytes_at(dev, offset, 4096) {
                Ok(data) => seen.inserted(offset as u128, data, BLOCK_CACHE_LIMIT as nat),
                Err(_) => seen,
            }
        }
    }

    /// A block of the part: from the cache, or read from the device and then
    /// cached. It is all zeros where it cannot be read.
    pub fn read_cached_block<D: RawBlockDevice>(&mut self, dev: &D, offset: usize) -> (r: Vec<u8>)
        requires
            old(self).wf(),
        ensures
            final(self).wf(),
            final(self).start == old(self).start,
            final(self).len == old(self).len,
            r@ == old(self).seen_block(old(self).cache@, dev, offset as int),
            r@.len() == 4096,
            final(self).cache@ == old(self).looked_up(old(self).cache@, dev, offset as int),
            old(self).shows(dev) ==> final(self).shows(dev),
            old(self).aligned() && offset % 4096 == 0 ==> final(self).aligned(),
    {
        let ghost before = self.cache@;
        match self.cache.get(offset) {
            Some(data) => {
                return data;
            },
            None => {},
        }
        let ghost looked = self.cache@;
        let mut data = zero_bytes(BLOCK_SIZE);
        match self.read_at(dev, offset, data.as_mut_slice()) {
            Ok(_) => {},
            Err(_) => {
                return zero_bytes(BLOCK_SIZE);
            },
        }
        let copy = copy_of(data.as_slice());
        self.cache.insert(offset, copy);
        data
    }

    /// Bytes of the size of a block from any offset on.
    pub fn read_offset<D: RawBlockDevice>(&mut self, dev: &D, offset: usize) -> (r: Vec<u8>)
        requires
            old(self).wf(),
        ensures
            final(self).wf(),
            final(self).start == old(self).start,
            final(self).len == old(self).len,
            r@.len() == 4096,
            ({
                let first = offset as int / 4096 * 4096;
                let skip = offset - first;
                let cache = old(self).cache@;
                let then = old(self).looked_up(cache, dev, first);
                let head = old(self).seen_block(cache, dev, first);
                let tail = old(self).seen_block(then, dev, first + 4096);
                if skip == 0 {
                    r@ == head && final(self).cache@ == then
                } else if first + 4096 > usize::MAX {
                    r@ == head.skip(skip) + zeros(skip as nat) && final(self).cache@ == then
                } else {
                    r@ == head.skip(skip) + tail.take(skip) && final(self).cache@ == old(
                        self,
                    ).looked_up(then, dev, first + 4096)
                }
            }),
            old(self).shows(dev) ==> final(self).shows(dev),
            old(self).aligned() ==> final(self).aligned(),
    {
        let first: usize = offset / BLOCK_SIZE * BLOCK_SIZE;
        if first == offset {
            return self.read_cached_block(dev, offset);
        }
        let skip: usize = offset - first;
        let head = self.read_cached_block(dev, first);
        let mut out = zero_bytes(BLOCK_SIZE);
        copy_into(out.as_mut_slice(), 0, head.as_slice(), skip, BLOCK_SIZE - skip);
        if first > usize::MAX - BLOCK_SIZE {
            assert(out@ =~= head@.skip(skip as int) + zeros(skip as nat));
            return out;
        }
        let tail = self.read_cached_block(dev, first + BLOCK_SIZE);
        copy_into(out.as_mut_slice(), BLOCK_SIZE - skip, tail.as_slice(), 0, skip);
        assert(out@ =~= head@.skip(skip as int) + tail@.take(skip as int));
        out
    }

    /// Whether a block has to be read.
    pub open spec fn lacks(&self, offset: usize) -> bool {
        !self.cache@.entries.contains_key(offset as u128)
    }

    /// How many blocks from a place on go on with the run before it: they follow
    /// each other and have to be read.
    pub open spec fn run_goes_on(&self, offsets: Seq<usize>, to: int) -> nat
        decreases offsets.len() - to,
    {
        if 0 < to < offsets.len() && self.lacks(offsets[to]) && offsets[to - 1] + 4096
            == offsets[to] {
            1 + self.run_goes_on(offsets, to + 1)
        } else {
            0
        }
    }

    /// The cache after the blocks from a place on have been seen to: those that
    /// have to be read are read, as many as follow each other at a time, and then
    /// cached. The first error ends it.
    pub open spec fn runs_read<D: RawBlockDevice>(
        &self,
        dev: &D,
        offsets: Seq<usize>,
        from: int,
        cache: AgedModel<Seq<u8>>,
    ) -> (AgedModel<Seq<u8>>, Option<SysErrNo>)
        decreases
            (if from < offsets.len() {
                offsets.len() - from
            } else {
                0
            }),
    {
        if !(0 <= from < offsets.len()) {
            (cache, None)
        } else if !self.lacks(offsets[from]) {
            self.runs_read(dev, offsets, from + 1, cache)
        } else {
            let to = from + 1 + self.run_goes_on(offsets, from + 1);
            if (to - from) * 4096 > usize::MAX {
                (cache, Some(SysErrNo::EFBIG))
            } else {
                match self.bytes_at(dev, offsets[from] as int, (to - from) * 4096) {
                    Err(e) => (cache, Some(e)),
                    Ok(data) => self.runs_read(
                        dev,
                        offsets,
                        to,
                        run_cached(cache, offsets, data, from, to - from),
                    ),
                }
            }
        }
    }

    /// The block at an offset once all could be read.
    pub open spec fn block_there<D: RawBlockDevice>(&self, dev: &D, offset: usize) -> Seq<u8> {
        if self.lacks(offset) {
            dev.contents().subrange(self.start + offset, self.start + offset + 4096)
        } else {
            self.cache@.entries[offset as u128].value
        }
    }

    /// What a read of the blocks at some offsets gives and leaves in the cache.
    pub open spec fn blocks_read<D: RawBlockDevice>(
        &self,
        was: &BlockRange,
        dev: &D,
        offsets: Seq<usize>,
        r: Result<Vec<Vec<u8>>, SysErrNo>,
    ) -> bool {
        let (cache, error) = was.runs_read(dev, offsets, 0, all_touched(was.cache@, offsets));
        &&& self.start == was.start
        &&& self.len == was.len
        &&& self.cache@ == cache
        &&& match error {
            Some(e) => r == Err::<Vec<Vec<u8>>, SysErrNo>(e),
            None => r is Ok && r->Ok_0@.len() == offsets.len() && forall|i: int|
                0 <= i < offsets.len() ==> (#[trigger] r->Ok_0@[i])@ == was.block_there(
                    dev,
                    offsets[i],
                ),
        }
        &&& was.shows(dev) ==> self.shows(dev)
        &&& was.aligned() && (forall|i: int|
            0 <= i < offsets.len() ==> #[trigger] offsets[i] % 4096 == 0) ==> self.aligned()
    }

    /// The blocks at some offsets: from the cache, or read from the device, as
    /// many as follow each other at a time, and then cached.
    pub fn read_cached_blocks<D: RawBlockDevice>(&mut self, dev: &D, offsets: &[usize]) -> (r: Result<
        Vec<Vec<u8>>,
        SysErrNo,
    >)
        requires
            old(self).wf(),
        ensures
            final(self).wf(),
            final(self).blocks_read(old(self), dev, offsets@, r),
    {
        let ghost was = *self;
        let ghost even = forall|i: int| 0 <= i < offsets@.len() ==> #[trigger] offsets@[i] % 4096 == 0;
        let mut found: Vec<Option<Vec<u8>>> = Vec::new();
        assert(offsets@.take(0) =~= Seq::empty());
        while found.len() < offsets.len()
            invariant
                was == *old(self),
                was.wf(),
                self.wf(),
                self.start == was.start,
                self.len == was.len,
                found@.len() <= offsets@.len(),
                self.cache@ == all_touched(was.cache@, offsets@.take(found@.len() as int)),
                same_blocks(self.cache@, was.cache@),
                forall|i: int|
                    0 <= i < found@.len() ==> (match #[trigger] found@[i] {
                        Some(data) => !was.lacks(offsets@[i]) && data@ == was.block_there(
                            dev,
                            offsets@[i],
                        ),
                        None => was.lacks(offsets@[i]),
                    }),
            decreases offsets@.len() - found@.len(),
        {
            let index: usize = found.len();
            assert(offsets@.take(index + 1).drop_last() =~= offsets@.take(index as int));
            let block = self.cache.get(offsets[index]);
            assert(self.cache@.entries.dom() =~= was.cache@.entries.dom());
            found.push(block);
        }
        assert(offsets@.take(offsets@.len() as int) =~= offsets@);
        let ghost goal = was.runs_read(dev, offsets@, 0, all_touched(was.cache@, offsets@));
        let mut blocks: Vec<Vec<u8>> = Vec::new();
        while blocks.len() < offsets.len()
            invariant
                was == *old(self),
                was.wf(),
                self.wf(),
                self.start == was.start,
                self.len == was.len,
                found@.len() == offsets@.len(),
                forall|i: int|
                    0 <= i < found@.len() ==> (match #[trigger] found@[i] {
                        Some(data) => !was.lacks(offsets@[i]) && data@ == was.block_there(
                            dev,
                            offsets@[i],
                        ),
                        None => was.lacks(offsets@[i]),
                    }),
                blocks@.len() <= offsets@.len(),
                forall|i: int|
                    0 <= i < blocks@.len() ==> (#[trigger] blocks@[i])@ == was.block_there(
                        dev,
                        offsets@[i],
                    ),
                goal == was.runs_read(dev, offsets@, blocks@.len() as int, self.cache@),
                was.shows(dev) ==> self.shows(dev),
                even == (forall|i: int|
                    0 <= i < offsets@.len() ==> #[trigger] offsets@[i] % 4096 == 0),
                was.aligned() && even ==> self.aligned(),
                goal == was.runs_read(dev, offsets@, 0, all_touched(was.cache@, offsets@)),
            decreases offsets@.len() - blocks@.len(),
        {
            let index: usize = blocks.len();
            match &found[index] {
                Some(data) => {
                    blocks.push(copy_of(data.as_slice()));
                },
                None => {
                    match self.read_run(dev, offsets, index, &found, &mut blocks, Ghost(was)) {
                        Ok(_) => {},
                        Err(e) => {
                            return Err(e);
                        },
                    }
                },
            }
        }
        Ok(blocks)
    }

    fn read_run<D: RawBlockDevice>(
        &mut self,
        dev: &D,
        offsets: &[usize],
        from: usize,
        found: &Vec<Option<Vec<u8>>>,
        blocks: &mut Vec<Vec<u8>>,
        Ghost(was): Ghost<BlockRange>,
    ) -> (r: Result<(), SysErrNo>)
        requires
            old(self).wf(),
            old(self).start == was.start,
            old(self).len == was.len,
            from < offsets@.len(),
            found@.len() == offsets@.len(),
            old(blocks)@.len() == from,
            was.lacks(offsets@[from as int]),
            forall|i: int|
                0 <= i < found@.len() ==> (#[trigger] found@[i] is None <==> was.lacks(offsets@[i])),
            forall|i: int|
                0 <= i < from ==> (#[trigger] old(blocks)@[i])@ == was.block_there(dev, offsets@[i]),
        ensures
            final(self).wf(),
            final(self).start == old(self).start,
            final(self).len == old(self).len,
            from <= final(blocks)@.len() <= offsets@.len(),
            forall|i: int|
                0 <= i < final(blocks)@.len() ==> (#[trigger] final(blocks)@[i])@
                    == was.block_there(dev, offsets@[i]),
            match r {
                Ok(_) => final(blocks)@.len() > from && was.runs_read(
                    dev,
                    offsets@,
                    from as int,
                    old(self).cache@,
                ) == was.runs_read(
                    dev,
                    offsets@,
                    final(blocks)@.len() as int,
                    final(self).cache@,
                ),
                Err(e) => final(self).cache@ == old(self).cache@ && was.runs_read(
                    dev,
                    offsets@,
                    from as int,
                    old(self).cache@,
                ) == (old(self).cache@, Some(e)),
            },
            old(self).shows(dev) ==> final(self).shows(dev),
            old(self).aligned() && (forall|i: int|
                0 <= i < offsets@.len() ==> #[trigger] offsets@[i] % 4096 == 0)
                ==> final(self).aligned(),
    {
        let ghost base = self.start as int;
        let ghost before = self.cache@;
        assert(offsets.len() == offsets@.len());
        let mut to: usize = from + 1;
        while to < offsets.len() && found[to].is_none() && offsets[to - 1] <= usize::MAX - BLOCK_SIZE
            && offsets[to - 1] + BLOCK_SIZE == offsets[to]
            invariant
                from < to <= offsets@.len(),
                found@.len() == offsets@.len(),
                forall|i: int|
                    0 <= i < found@.len() ==> (#[trigger] found@[i] is None <==> was.lacks(
                        offsets@[i],
                    )),
                was.lacks(offsets@[from as int]),
                forall|j: int|
                    from <= j < to ==> #[trigger] offsets@[j] == offsets@[from as int] + (j - from)
                        * 4096 && was.lacks(offsets@[j]),
                1 + was.run_goes_on(offsets@, from + 1) == to - from + was.run_goes_on(
                    offsets@,
                    to as int,
                ),
            decreases offsets@.len() - to,
        {
            assert(found@[to as int] is None);
            to = to + 1;
        }
        assert(was.run_goes_on(offsets@, to as int) == 0) by {
            if to < offsets@.len() {
                assert(found@[to as int] is None <==> was.lacks(offsets@[to as int]));
            }
        }
        let count: usize = to - from;
        if count > usize::MAX / 4096 {
            assert((to - from) * 4096 > usize::MAX);
            return Err(SysErrNo::EFBIG);
        }
        let mut data = zero_bytes(count * 4096);
        match self.read_at(dev, offsets[from], data.as_mut_slice()) {
            Ok(_) => {},
            Err(e) => {
                return Err(e);
            },
        }
        let ghost at = base + offsets@[from as int];
        assert(data@ == dev.contents().subrange(at, at + count * 4096));
        let mut i: usize = 0;
        while i < count
            invariant
                self.wf(),
                self.start == old(self).start,
                self.len == old(self).len,
                base == self.start,
                base == was.start,
                0 <= i <= count,
                count == to - from,
                to <= offsets@.len(),
                count <= usize::MAX / 4096,
                at == base + offsets@[from as int],
                data@.len() == count * 4096,
                at + count * 4096 <= dev.contents().len(),
                data@ == dev.contents().subrange(at, at + count * 4096),
                forall|j: int|
                    from <= j < to ==> #[trigger] offsets@[j] == offsets@[from as int] + (j - from)
                        * 4096 && was.lacks(offsets@[j]),
                blocks@.len() == from + i,
                forall|j: int|
                    0 <= j < blocks@.len() ==> (#[trigger] blocks@[j])@ == was.block_there(
                        dev,
                        offsets@[j],
                    ),
                self.cache@ == run_cached(before, offsets@, data@, from as int, i as int),
                old(self).shows(dev) ==> self.shows(dev),
                old(self).aligned() && (forall|k: int|
                    0 <= k < offsets@.len() ==> #[trigger] offsets@[k] % 4096 == 0)
                    ==> self.aligned(),
            decreases count - i,
        {
            assert((i + 1) * 4096 <= count * 4096) by (nonlinear_arith)
                requires
                    i + 1 <= count,
            ;
            let block = copy_range(data.as_slice(), i * 4096, i * 4096 + 4096);
            let copy = copy_of(block.as_slice());
            let ghost j = from + i;
            assert(offsets@[j] == offsets@[from as int] + (j - from) * 4096);
            assert(block@ =~= dev.contents().subrange(
                base + offsets@[j],
                base + offsets@[j] + 4096,
            ));
            assert(block@ == data@.subrange(i * 4096, (i + 1) * 4096));
            self.cache.insert(offsets[from + i], copy);
            blocks.push(block);
            i = i + 1;
        }
        Ok(())
    }
}

/// A cache after a look for some blocks.
pub open spec fn all_touched(cache: AgedModel<Seq<u8>>, offsets: Seq<usize>) -> AgedModel<Seq<u8>>
    decreases offsets.len(),
{
    if offsets.len() == 0 {
        cache
    } else {
        all_touched(cache, offsets.drop_last()).touched(offsets.last() as u128)
    }
}

/// A cache with the first blocks of a run.
pub open spec fn run_cached(
    cache: AgedModel<Seq<u8>>,
    offsets: Seq<usize>,
    data: Seq<u8>,
    from: int,
    count: int,
) -> AgedModel<Seq<u8>>
    decreases count,
{
    if count <= 0 {
        cache
    } else {
        run_cached(cache, offsets, data, from, count - 1).inserted(
            offsets[from + count - 1] as u128,
            data.subrange((count - 1) * 4096, count * 4096),
            BLOCK_CACHE_LIMIT as nat,
        )
    }
}

/// Two caches hold the same blocks.
pub open spec fn same_blocks(a: AgedModel<Seq<u8>>, b: AgedModel<Seq<u8>>) -> bool {
    &&& a.entries.dom() == b.entries.dom()
    &&& forall|k: u128| #[trigger]
        a.entries.contains_key(k) ==> a.entries[k].value == b.entries[k].value
}

/// Whether a block comes from the cache or from the device, it is as the device
/// has it.
pub proof fn blocks_are_as_on_the_device<D: RawBlockDevice>(
    range: &BlockRange,
    dev: &D,
    offset: usize,
)
    requires
        range.shows(dev),
    ensures
        range.block_there(dev, offset) == dev.contents().subrange(
            range.start + offset,
            range.start + offset + 4096,
        ),
        !range.lacks(offset) || range.bytes_at(dev, offset as int, 4096) is Ok ==> range.seen_block(
            range.cache@,
            dev,
            offset as int,
        ) == range.block_there(dev, offset),
{
    if !range.lacks(offset) {
        assert(range.cache@.entries.contains_key(offset as u128));
    }
}

/// A block that could be read is cached afterwards as it was seen, so the next
/// look at it does not need the device.
pub proof fn read_block_is_cached<D: RawBlockDevice>(range: &BlockRange, dev: &D, offset: usize)
    requires
        !range.lacks(offset) || range.bytes_at(dev, offset as int, 4096) is Ok,
    ensures
        ({
            let after = range.looked_up(range.cache@, dev, offset as int);
            after.entries.contains_key(offset as u128) && after.entries[offset as u128].value
                == range.seen_block(range.cache@, dev, offset as int)
        }),
{
}

proof fn lemma_blocks_apart(start: int, k: int, offset: int, n: int)
    requires
        start >= 0,
        start % 512 == 0,
        k >= 0,
        k % 4096 == 0,
        n > 0,
        offset >= 0,
        !(offset / 4096 * 4096 <= k <= (offset + n - 1) / 4096 * 4096),
    ensures
        start + k + 4096 <= sectors_start(start + offset) || sectors_end(start + offset, n) <= start
            + k,
{
}

} // verus!
