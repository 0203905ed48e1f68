//! Reading files of an ext4 volume by blocks and by clean pages.
use vstd::prelude::*;

use crate::aged::AgedModel;
use crate::bytes::{copy_into, fill_zero, zero_bytes, zeros};
use crate::errno::SysErrNo;
use crate::fs::ext4::caches::{
    block_key, page_cached, page_is, page_key, page_limit, run_holds, touched_run, CleanPageKey,
    PblockRun, PAGE_SIZE, PBLOCK_RUN_CACHE_LIMIT,
};
use crate::fs::ext4::mount::{pages_whole, Ext4Volume, FilesModel};
use crate::fs::ext4::types::{kind_of_mode, node_kind, Ext4NodeKind};
use crate::fs::ext4::volume::{Fault, Load};

verus! {

/// How many blocks ahead a run is looked for.
pub const PBLOCK_RUN_LOOKAHEAD: usize = 16;

/// The physical block of a block of a file that an extent holds.
pub open spec fn extent_block(first: u32, len: u32, pblock: u64, lblock: u32) -> Option<u64> {
    if first <= lblock < first + len && lblock < u32::MAX {
        Some((lblock - first + pblock) as u64)
    } else {
        None
    }
}

/// The physical block of a block of a file that an extent of `len` blocks from
/// `first` on, kept from `pblock` on, holds.
pub fn extent_pblock_for_read(first: u32, len: u32, pblock: u64, lblock: u32) -> (r: Option<u64>)
    requires
        pblock + len <= u64::MAX,
    ensures
        r == extent_block(first, len, pblock, lblock),
{
    if len == 0 || lblock < first || lblock >= first.saturating_add(len) {
        return None;
    }
    Some((lblock - first) as u64 + pblock)
}

/// The position of a physical block on a device, if the machine can count it.
pub fn block_position(pblock: u64) -> (r: Option<usize>)
    ensures
        match r {
            Some(at) => at == pblock * 4096,
            None => pblock * 4096 > usize::MAX,
        },
{
    if pblock > (usize::MAX / 4096) as u64 {
        None
    } else {
        Some(pblock as usize * 4096)
    }
}

/// How many blocks in a row are worth looking for from a page of a file on.
pub fn run_lookahead(file_size: usize, page_idx: usize) -> (r: u32)
    ensures
        ({
            let total = (file_size + 4095) / 4096;
            let rest = if total < page_idx {
                0
            } else {
                total - page_idx
            };
            r == (if rest < 16 {
                rest
            } else {
                16
            })
        }),
{
    let whole: usize = file_size / 4096;
    let total: usize = if file_size % 4096 == 0 {
        whole
    } else {
        whole + 1
    };
    let rest: usize = total.saturating_sub(page_idx);
    if rest < PBLOCK_RUN_LOOKAHEAD {
        rest as u32
    } else {
        16
    }
}

/// Whether so many physical blocks, one after the other, follow a first one.
pub open spec fn follows(first: u64, next: Seq<Option<u64>>, n: int) -> bool {
    forall|i: int| 0 <= i < n ==> #[trigger] next[i] == Some((first + i + 1) as u64) && first + i + 1
        <= u64::MAX
}

/// How many blocks a run has that starts at a physical block: `next` tells where
/// the blocks of the file behind the first one lie.
pub fn run_length(first: u64, next: &Vec<Option<u64>>, max_len: u32) -> (r: u32)
    requires
        max_len > 0,
    ensures
        1 <= r <= max_len,
        r - 1 <= next@.len(),
        follows(first, next@, r - 1),
        r < max_len && r - 1 < next@.len() ==> next@[r - 1] != Some((first + r) as u64) || first + r
            > u64::MAX,
        first + (r - 1) <= u64::MAX,
{
    let mut len: u32 = 1;
    let mut prev: u64 = first;
    while len < max_len && ((len - 1) as usize) < next.len()
        invariant
            1 <= len <= max_len,
            len - 1 <= next@.len(),
            prev == first + (len - 1),
            follows(first, next@, len - 1),
        ensures
            1 <= len <= max_len,
            len - 1 <= next@.len(),
            prev == first + (len - 1),
            follows(first, next@, len - 1),
            len < max_len && len - 1 < next@.len() ==> next@[len - 1] != Some((first + len) as u64)
                || first + len > u64::MAX,
        decreases max_len - len,
    {
        let follower: Option<u64> = next[(len - 1) as usize];
        match follower {
            None => {
                break;
            },
            Some(p) => {
                if prev == u64::MAX || p != prev + 1 {
                    break;
                }
                prev = p;
            },
        }
        len = len + 1;
    }
    len
}

/// How many bytes a read of a file gives.
pub open spec fn readable(size: int, offset: int, n: int) -> int {
    if offset >= size {
        0
    } else if size - offset < n {
        size - offset
    } else {
        n
    }
}

/// The block that holds a position of a file, given its blocks from one on.
pub open spec fn block_for(blocks: Seq<Option<Vec<u8>>>, first: int, p: int) -> Option<Vec<u8>> {
    blocks[p / 4096 - first]
}

/// The byte at a position of a file, given its blocks from one on; a block that
/// is missing reads as zeros.
pub open spec fn block_byte(blocks: Seq<Option<Vec<u8>>>, first: int, p: int) -> u8 {
    match block_for(blocks, first, p) {
        Some(data) => data@[p % 4096],
        None => 0,
    }
}

/// Whether the blocks hold all that a read needs of them.
pub open spec fn blocks_suffice(blocks: Seq<Option<Vec<u8>>>, offset: int, n: int) -> bool {
    forall|p: int|
        offset <= p < offset + n ==> {
            let b = #[trigger] block_for(blocks, offset / 4096, p);
            b is Some ==> p % 4096 < b->0@.len()
        }
}

/// Reads from the blocks of a file: `blocks` are those from the one with the
/// offset on, and all that the read touches.
#[verifier::rlimit(60)]
pub fn extent_aware_read_at(
    offset: usize,
    buf: &mut [u8],
    size: usize,
    blocks: &Vec<Option<Vec<u8>>>,
) -> (r: Result<usize, SysErrNo>)
    requires
        readable(size as int, offset as int, old(buf)@.len() as int) > 0 ==> offset as int / 4096
            + blocks@.len() > (offset + readable(size as int, offset as int, old(buf)@.len() as int)
            - 1) / 4096,
    ensures
        ({
            let n = readable(size as int, offset as int, old(buf)@.len() as int);
            &&& final(buf)@.len() == old(buf)@.len()
            &&& r is Ok <==> blocks_suffice(blocks@, offset as int, n)
            &&& r is Err ==> r == Err::<usize, SysErrNo>(SysErrNo::EIO)
            &&& r is Ok ==> r->Ok_0 == n && (forall|i: int|
                0 <= i < n ==> #[trigger] final(buf)@[i] == block_byte(
                    blocks@,
                    offset as int / 4096,
                    offset + i,
                )) && (forall|i: int|
                n <= i < old(buf)@.len() ==> #[trigger] final(buf)@[i] == old(buf)@[i])
        }),
{
    if buf.len() == 0 || offset >= size {
        return Ok(0);
    }
    let ghost start = buf@;
    let total: usize = if size - offset < buf.len() {
        size - offset
    } else {
        buf.len()
    };
    let first: usize = offset / 4096;
    fill_zero(buf, 0, total);
    let mut copied: usize = 0;
    while copied < total
        invariant
            start.len() == buf@.len(),
            start == old(buf)@,
            offset < size,
            total == readable(size as int, offset as int, start.len() as int),
            total > 0,
            total <= size - offset,
            total <= buf@.len(),
            first == offset as int / 4096,
            first + blocks@.len() > (offset + total - 1) / 4096,
            0 <= copied <= total,
            copied < total ==> copied == 0 || (offset + copied) % 4096 == 0,
            blocks_suffice(blocks@, offset as int, copied as int),
            forall|i: int|
                0 <= i < copied ==> #[trigger] buf@[i] == block_byte(
                    blocks@,
                    first as int,
                    offset + i,
                ),
            forall|i: int| copied <= i < total ==> #[trigger] buf@[i] == 0,
            forall|i: int| total <= i < start.len() ==> #[trigger] buf@[i] == start[i],
        decreases total - copied,
    {
        let current: usize = offset + copied;
        let block_off: usize = current % 4096;
        let index: usize = current / 4096 - first;
        let n: usize = if total - copied < 4096 - block_off {
            total - copied
        } else {
            4096 - block_off
        };
        let ghost before = buf@;
        proof {
            assert(current as int / 4096 <= (offset + total - 1) / 4096);
        }
        match &blocks[index] {
            Some(data) => {
                if data.len() < block_off + n {
                    proof {
                        let p = current + n - 1;
                        assert(p / 4096 - offset as int / 4096 == index);
                        let b = block_for(blocks@, offset as int / 4096, p);
                        assert(p % 4096 >= b->0@.len());
                        assert(!blocks_suffice(blocks@, offset as int, total as int));
                    }
                    return Err(SysErrNo::EIO);
                }
                copy_into(buf, copied, data.as_slice(), block_off, n);
            },
            None => {},
        }
        proof {
            assert forall|i: int| copied <= i < copied + n implies #[trigger] buf@[i] == block_byte(
                blocks@,
                first as int,
                offset + i,
            ) by {
                assert((offset + i) / 4096 == current as int / 4096);
            }
            assert forall|p: int| offset <= p < offset + copied + n implies {
                let b = #[trigger] block_for(blocks@, offset as int / 4096, p);
                b is Some ==> p % 4096 < b->0@.len()
            } by {
                if p >= current {
                    assert(p / 4096 == current as int / 4096);
                }
            }
        }
        copied = copied + n;
    }
    Ok(total)
}

/// The page of a file that a block gives: what is behind the end of the file,
/// and a missing block, read as zeros.
pub open spec fn page_of_block(size: int, page_idx: int, block: Option<Vec<u8>>) -> Seq<u8> {
    Seq::new(
        4096,
        |i: int|
            if page_idx * 4096 + i < size && block is Some {
                block->0@[i]
            } else {
                0u8
            },
    )
}

/// The page of a file that a block gives.
pub fn fill_clean_page_frame(size: usize, page_idx: usize, block: &Option<Vec<u8>>) -> (r: Result<
    Vec<u8>,
    SysErrNo,
>)
    ensures
        match r {
            Ok(page) => page_idx * 4096 <= usize::MAX && (block is Some ==> block->0@.len()
                >= readable(size as int, page_idx * 4096, 4096)) && page@ == page_of_block(
                size as int,
                page_idx as int,
                *block,
            ),
            Err(SysErrNo::EFBIG) => page_idx * 4096 > usize::MAX,
            Err(e) => e == SysErrNo::EIO && block is Some && block->0@.len() < readable(
                size as int,
                page_idx * 4096,
                4096,
            ),
        },
{
    let mut page = zero_bytes(PAGE_SIZE);
    if page_idx > usize::MAX / 4096 {
        return Err(SysErrNo::EFBIG);
    }
    let page_start: usize = page_idx * 4096;
    if page_start >= size {
        assert(page@ =~= page_of_block(size as int, page_idx as int, *block));
        return Ok(page);
    }
    let read_len: usize = if size - page_start < PAGE_SIZE {
        size - page_start
    } else {
        PAGE_SIZE
    };
    match block {
        Some(data) => {
            if data.len() < read_len {
                return Err(SysErrNo::EIO);
            }
            copy_into(page.as_mut_slice(), 0, data.as_slice(), 0, read_len);
        },
        None => {},
    }
    assert(page@ =~= page_of_block(size as int, page_idx as int, *block));
    Ok(page)
}

/// The byte at a position of a file, by its clean pages.
pub open spec fn page_byte(m: AgedModel<Vec<u8>>, ino: u32, p: int) -> u8 {
    m.entries[page_key(ino, p / 4096)].value@[p % 4096]
}

/// Whether a byte is that at a position of a file, by its clean pages.
pub open spec fn shows_byte(m: AgedModel<Vec<u8>>, ino: u32, p: int, b: u8) -> bool {
    page_cached(m, ino, p / 4096) && b == page_byte(m, ino, p)
}

/// How many pages were looked at for a read: up to the last byte that was read,
/// or to the page that is missing.
pub open spec fn pages_looked_at(offset: int, r: Result<usize, usize>) -> nat {
    match r {
        Ok(n) => if n == 0 {
            0
        } else {
            ((offset + n - 1) / 4096 - offset / 4096 + 1) as nat
        },
        Err(page) => (page - offset / 4096 + 1) as nat,
    }
}

/// What a read of a file by its clean pages gives: all bytes there are, or the
/// first page that is not cached, with the bytes in front of it.
pub open spec fn read_by_pages(
    m: AgedModel<Vec<u8>>,
    ino: u32,
    offset: int,
    size: int,
    before: Seq<u8>,
    after: Seq<u8>,
    r: Result<usize, usize>,
) -> bool {
    let n = readable(size, offset, before.len() as int);
    let got = match r {
        Ok(_) => n,
        Err(page) => if page * 4096 <= offset {
            0
        } else {
            page * 4096 - offset
        },
    };
    &&& after.len() == before.len()
    &&& (forall|i: int| 0 <= i < got ==> shows_byte(m, ino, offset + i, #[trigger] after[i]))
    &&& (forall|i: int| got <= i < before.len() ==> #[trigger] after[i] == before[i])
    &&& match r {
        Ok(count) => count == n,
        Err(page) => n > 0 && offset / 4096 <= page <= (offset + n - 1) / 4096 && !page_cached(
            m,
            ino,
            page as int,
        ) && (forall|q: int| offset / 4096 <= q < page ==> #[trigger] page_cached(m, ino, q)),
    }
}

impl Ext4Volume {
    /// Keeps a page, unless it is cached.
    pub fn install_page(&mut self, ino: u32, page_idx: usize, page: Vec<u8>, total_frames: usize)
        requires
            old(self).wf(),
            page@.len() == 4096,
        ensures
            final(self).wf(),
            final(self).same_names(old(self)),
            ({
                let key = page_key(ino, page_idx as int);
                let looked = old(self).files().pages.touched(key);
                final(self).files() == (FilesModel {
                    pages: if page_cached(old(self).files().pages, ino, page_idx as int) {
                        looked
                    } else {
                        looked.inserted(key, page, page_limit(total_frames as nat))
                    },
                    ..old(self).files()
                })
            }),
    {
        let key = CleanPageKey { ino, page_idx };
        let ghost before = self.pages@;
        let r = self.pages.get(key);
        if r.is_none() {
            let ghost mid = self.pages@;
            self.pages.insert(key, page, total_frames);
            assert forall|k: u128| #[trigger] self.pages@.entries.contains_key(k) implies
                self.pages@.entries[k].value@.len() == 4096 by {
                if k != page_key(ino, page_idx as int) {
                    assert(mid.entries.contains_key(k));
                    assert(before.entries.contains_key(k));
                }
            }
        }
    }

    /// Reads a file by its clean pages. Fails with the number of the first page
    /// that is not cached.
    pub fn clean_page_cached_read(&mut self, ino: u32, offset: usize, buf: &mut [u8], size: usize) -> (r:
        Result<usize, usize>)
        requires
            old(self).wf(),
        ensures
            final(self).wf(),
            final(self).same_names(old(self)),
            final(self).files() == (FilesModel {
                pages: touched_run(
                    old(self).files().pages,
                    ino,
                    offset as int / 4096,
                    pages_looked_at(offset as int, r),
                ),
                ..old(self).files()
            }),
            read_by_pages(
                old(self).files().pages,
                ino,
                offset as int,
                size as int,
                old(buf)@,
                final(buf)@,
                r,
            ),
    {
        if buf.len() == 0 || offset >= size {
            return Ok(0);
        }
        let ghost start = buf@;
        let ghost first = self.files();
        let ghost m = self.files().pages;
        let total: usize = if size - offset < buf.len() {
            size - offset
        } else {
            buf.len()
        };
        let mut copied: usize = 0;
        let ghost mut looked: nat = 0;
        while copied < total
            invariant
                self.wf(),
                self.same_names(old(self)),
                first == old(self).files(),
                m == first.pages,
                self.files() == (FilesModel {
                    pages: touched_run(m, ino, offset as int / 4096, looked),
                    ..first
                }),
                copied == 0 ==> looked == 0,
                copied > 0 ==> looked == (offset + copied - 1) / 4096 - offset as int / 4096 + 1,
                start.len() == buf@.len(),
                start == old(buf)@,
                pages_whole(m),
                offset < size,
                total == readable(size as int, offset as int, start.len() as int),
                total <= buf@.len(),
                total > 0,
                0 <= copied <= total,
                copied < total ==> copied == 0 || (offset + copied) % 4096 == 0,
                forall|i: int|
                    0 <= i < copied ==> shows_byte(m, ino, offset + i, #[trigger] buf@[i]),
                forall|i: int| copied <= i < start.len() ==> #[trigger] buf@[i] == start[i],
            decreases total - copied,
        {
            let current: usize = offset + copied;
            let page_off: usize = current % 4096;
            let page_idx: usize = current / 4096;
            let n: usize = if total - copied < 4096 - page_off {
                total - copied
            } else {
                4096 - page_off
            };
            let ghost before = buf@;
            let ghost had = self.pages@;
            let key = CleanPageKey { ino, page_idx };
            let page = self.pages.get(key);
            proof {
                let k = page_key(ino, page_idx as int);
                lemma_touched_run(m, ino, offset as int / 4096, looked);
                assert(offset as int / 4096 + looked == page_idx);
                looked = looked + 1;
                lemma_touched_run(m, ino, offset as int / 4096, looked);
                assert(pages_whole(self.pages@)) by {
                    assert forall|q: u128| #[trigger] self.pages@.entries.contains_key(q) implies
                        self.pages@.entries[q].value@.len() == 4096 by {
                        assert(m.entries.contains_key(q));
                    }
                }
                assert(page_cached(had, ino, page_idx as int) == page_cached(
                    m,
                    ino,
                    page_idx as int,
                )) by {
                    assert(had.entries.contains_key(k) == m.entries.contains_key(k));
                }
            }
            match page {
                None => {
                    proof {
                        assert forall|q: int| offset as int / 4096 <= q < page_idx implies
                            #[trigger] page_cached(m, ino, q) by {
                            let p = if q == offset as int / 4096 {
                                offset as int
                            } else {
                                q * 4096
                            };
                            let i = p - offset;
                            assert(0 <= i < copied);
                            assert((offset + i) / 4096 == q);
                            assert(shows_byte(m, ino, offset + i, buf@[i]));
                        }
                    }
                    return Err(page_idx);
                },
                Some(data) => {
                    assert(data@ == m.entries[page_key(ino, page_idx as int)].value@);
                    copy_into(buf, copied, data.as_slice(), page_off, n);
                    proof {
                        assert forall|i: int| 0 <= i < copied + n implies shows_byte(
                            m,
                            ino,
                            offset + i,
                            #[trigger] buf@[i],
                        ) by {
                            if i < copied {
                                assert(buf@[i] == before[i]);
                            } else {
                            assert((offset + i) / 4096 == page_idx);
                            assert((offset + i) % 4096 == page_off + (i - copied));
                            }
                        }
                    }
                },
            }
            copied = copied + n;
        }
        Ok(total)
    }
}

/// Physical block numbers have 48 bits.
pub const PBLOCK_LIMIT: u64 = 281474976710656;

/// Whether a run of a file has been added to those that are remembered.
pub open spec fn run_noted(
    before: AgedModel<PblockRun>,
    after: AgedModel<PblockRun>,
    ino: u32,
    lblock: u32,
    len: u32,
    first: u64,
) -> bool {
    after == before.inserted(
        block_key(ino, lblock),
        PblockRun { len, start_pblock: first },
        PBLOCK_RUN_CACHE_LIMIT as nat,
    )
}

/// What there is of a run of clean pages, and what has to be read for more.
pub enum FramesStep {
    /// These pages are all that is to be had.
    Ready(Vec<Vec<u8>>),
    /// This page has to be read first.
    NeedPage(usize),
}

impl Ext4Volume {
    /// The physical block of a block of a file: by a run that is remembered, or
    /// by the extents, of which `mapped` tells where the block and those that
    /// follow it lie. What the extents say is remembered as a run.
    pub fn cached_pblock_for_clean_read(
        &mut self,
        ino: u32,
        lblock: u32,
        max_run_len: u32,
        mapped: &Vec<Option<u64>>,
    ) -> (r: Option<u64>)
        requires
            old(self).wf(),
            mapped@.len() > 0,
            forall|i: int|
                0 <= i < mapped@.len() && (#[trigger] mapped@[i]) is Some ==> mapped@[i]->0
                    < PBLOCK_LIMIT,
        ensures
            final(self).wf(),
            final(self).same_names(old(self)),
            final(self).files() == (FilesModel {
                runs: final(self).files().runs,
                ..old(self).files()
            }),
            max_run_len == 0 ==> r is None && *final(self) == *old(self),
            max_run_len > 0 ==> ({
                let runs = old(self).files().runs;
                ||| exists|k: u128| #[trigger]
                    run_holds(runs, k, ino, lblock) && r == Some(
                        (runs.entries[k].value.start_pblock + (block_key(ino, lblock) - k)) as u64,
                    ) && final(self).files().runs == runs.touched(k)
                ||| (forall|k: u128| !#[trigger] run_holds(runs, k, ino, lblock)) && r == mapped@[0]
                    && (match mapped@[0] {
                    None => final(self).files().runs == runs,
                    Some(first) => exists|len: u32|
                        1 <= len <= max_run_len && len <= mapped@.len() && follows(
                            first,
                            mapped@.skip(1),
                            len - 1,
                        ) && (len < max_run_len && len < mapped@.len() ==> mapped@[len as int]
                            != Some((first + len) as u64)) && #[trigger] run_noted(
                            runs,
                            final(self).files().runs,
                            ino,
                            lblock,
                            len,
                            first,
                        ),
                })
            }),
    {
        if max_run_len == 0 {
            return None;
        }
        match self.runs.get(ino, lblock) {
            Some(p) => {
                return Some(p);
            },
            None => {
                assert forall|k: u128| !#[trigger] run_holds(old(self).runs@, k, ino, lblock) by {}
            },
        }
        let first: u64 = match mapped[0] {
            Some(first) => first,
            None => {
                return None;
            },
        };
        let mut next: Vec<Option<u64>> = Vec::new();
        let mut i: usize = 1;
        while i < mapped.len()
            invariant
                1 <= i <= mapped@.len(),
                next@ =~= mapped@.subrange(1, i as int),
            decreases mapped@.len() - i,
        {
            next.push(mapped[i]);
            i = i + 1;
        }
        let len: u32 = run_length(first, &next, max_run_len);
        let ghost before = self.runs@;
        self.runs.insert(ino, lblock, len, first);
        assert(next@ =~= mapped@.skip(1));
        assert(follows(first, mapped@.skip(1), len - 1));
        assert(run_noted(before, self.runs@, ino, lblock, len, first));
        assert(before == old(self).files().runs);
        assert(self.runs@ == self.files().runs);
        assert(1 <= len <= max_run_len && len <= mapped@.len());
        assert(mapped@[0] == Some(first));
        assert(forall|k: u128| !#[trigger] run_holds(before, k, ino, lblock));
        Some(first)
    }

    /// A page of a file, if it is cached; fails with the number of the page
    /// otherwise, or with an error where no volume is mounted.
    pub fn clean_page_cache_frame(&mut self, ino: u32, file_offset: usize) -> (r: Result<
        Vec<u8>,
        Result<usize, SysErrNo>,
    >)
        requires
            old(self).wf(),
        ensures
            final(self).wf(),
            final(self).same_names(old(self)),
            ({
                let page = file_offset as int / 4096;
                let pages = old(self).files().pages;
                &&& final(self).files() == (FilesModel {
                    pages: pages.touched(page_key(ino, page)),
                    ..old(self).files()
                })
                &&& match r {
                    Ok(data) => page_is(pages, ino, page, data),
                    Err(Ok(idx)) => idx == page && !page_cached(pages, ino, page) && old(
                        self,
                    ).names.mounted,
                    Err(Err(e)) => e == SysErrNo::ENOENT && !page_cached(pages, ino, page) && !old(
                        self,
                    ).names.mounted,
                }
            }),
    {
        let page_idx: usize = file_offset / 4096;
        let ghost before = self.pages@;
        let found = self.pages.get(CleanPageKey { ino, page_idx });
        proof {
            assert forall|q: u128| #[trigger] self.pages@.entries.contains_key(q) implies
                self.pages@.entries[q].value@.len() == 4096 by {
                assert(before.entries.contains_key(q));
            }
        }
        match found {
            Some(data) => Ok(data),
            None => if self.names.mounted {
                Err(Ok(page_idx))
            } else {
                Err(Err(SysErrNo::ENOENT))
            },
        }
    }

    /// The clean pages of a file from an offset on: all that are cached in a
    /// row, up to `max_pages`, and at least `read_ahead_pages` of them, which
    /// are asked for one by one. `failed` tells that the page asked for last
    /// could not be read: that is an error for the first page, and else ends the
    /// run.
    pub fn clean_page_cache_frames(
        &mut self,
        ino: u32,
        file_offset: usize,
        max_pages: usize,
        read_ahead_pages: usize,
        failed: Option<SysErrNo>,
    ) -> (r: Result<FramesStep, Fault>)
        requires
            old(self).wf(),
        ensures
            final(self).wf(),
            final(self).same_names(old(self)),
            final(self).files() == (FilesModel {
                pages: final(self).files().pages,
                ..old(self).files()
            }),
            max_pages == 0 ==> r is Ok && r->Ok_0 is Ready && r->Ok_0->Ready_0@.len() == 0
                && final(self).files() == old(self).files(),
            max_pages > 0 && !old(self).names.mounted ==> r == Err::<FramesStep, Fault>(
                Fault::Sys(SysErrNo::ENOENT),
            ) && final(self).files() == old(self).files(),
            max_pages > 0 && old(self).names.mounted ==> {
                let start = file_offset as int / 4096;
                let ahead = if read_ahead_pages == 0 {
                    1
                } else if read_ahead_pages > max_pages {
                    max_pages
                } else {
                    read_ahead_pages
                };
                let pages = old(self).files().pages;
                if !old(self).names.inodes@.contains_key(ino as u128) {
                    r == Err::<FramesStep, Fault>(Fault::Need(Load::Inode(ino)))
                        && final(self).files() == old(self).files()
                } else if kind_of_mode(old(self).names.inodes@[ino as u128].mode)
                    != Ext4NodeKind::Regular {
                    r == Err::<FramesStep, Fault>(Fault::Sys(SysErrNo::EINVAL))
                        && final(self).files() == old(self).files()
                } else {
                    &&& final(self).files().pages == touched_run(
                        pages,
                        ino,
                        start,
                        match r {
                            Ok(FramesStep::Ready(frames)) => if frames@.len() < max_pages && start
                                + frames@.len() <= usize::MAX {
                                frames@.len() + 1
                            } else {
                                frames@.len()
                            },
                            Ok(FramesStep::NeedPage(page)) => (page - start + 1) as nat,
                            Err(_) => 1,
                        },
                    )
                    &&& match r {
                        Ok(FramesStep::Ready(frames)) => {
                            let n = frames@.len();
                            &&& n <= max_pages
                            &&& forall|j: int|
                                0 <= j < n ==> page_is(pages, ino, start + j, #[trigger] frames@[j])
                            &&& n < max_pages ==> !page_cached(pages, ino, start + n)
                            &&& n >= ahead || (failed is Some && n > 0) || file_offset + n * 4096
                                > usize::MAX
                        },
                        Ok(FramesStep::NeedPage(page)) => {
                            &&& failed is None
                            &&& start <= page < start + ahead
                            &&& !page_cached(pages, ino, page as int)
                            &&& forall|q: int| start <= q < page ==> #[trigger] page_cached(
                                pages,
                                ino,
                                q,
                            )
                        },
                        Err(f) => failed is Some && f == Fault::Sys(failed->0) && !page_cached(
                            pages,
                            ino,
                            start,
                        ),
                    }
                }
            },
    {
        if max_pages == 0 {
            let none: Vec<Vec<u8>> = Vec::new();
            return Ok(FramesStep::Ready(none));
        }
        if !self.names.mounted {
            return Err(Fault::Sys(SysErrNo::ENOENT));
        }
        let inode = match self.names.inode(ino) {
            Ok(inode) => inode,
            Err(f) => {
                return Err(f);
            },
        };
        if node_kind(inode.mode) != Ext4NodeKind::Regular {
            return Err(Fault::Sys(SysErrNo::EINVAL));
        }
        let ahead: usize = if read_ahead_pages == 0 {
            1
        } else if read_ahead_pages > max_pages {
            max_pages
        } else {
            read_ahead_pages
        };
        let start: usize = file_offset / 4096;
        let ghost pages = self.pages@;
        let frames = self.pages.get_run(ino, start, max_pages);
        proof {
            lemma_touched_run(pages, ino, start as int, frames@.len());
            lemma_touched_run(pages, ino, start as int, frames@.len() + 1);
            assert forall|q: u128| #[trigger] self.pages@.entries.contains_key(q) implies
                self.pages@.entries[q].value@.len() == 4096 by {
                assert(pages.entries.contains_key(q));
            }
        }
        let n: usize = frames.len();
        if n >= ahead || n > (usize::MAX - file_offset) / 4096 {
            return Ok(FramesStep::Ready(frames));
        }
        match failed {
            Some(e) => {
                if n == 0 {
                    assert(!page_cached(pages, ino, start as int + 0));
                    return Err(Fault::Sys(e));
                }
                Ok(FramesStep::Ready(frames))
            },
            None => {
                assert forall|q: int| start <= q < start + n implies #[trigger] page_cached(
                    pages,
                    ino,
                    q,
                ) by {
                    assert(page_is(pages, ino, start + (q - start), frames@[q - start]));
                }
                Ok(FramesStep::NeedPage(start + n))
            },
        }
    }
}

proof fn lemma_touched_run(m: AgedModel<Vec<u8>>, ino: u32, start: int, n: nat)
    ensures
        forall|k: u128| #[trigger]
            touched_run(m, ino, start, n).entries.contains_key(k) <==> m.entries.contains_key(k),
        forall|k: u128| #[trigger]
            m.entries.contains_key(k) ==> touched_run(m, ino, start, n).entries[k].value
                == m.entries[k].value,
    decreases n,
{
    if n > 0 {
        let before = touched_run(m, ino, start, (n - 1) as nat);
        let after = touched_run(m, ino, start, n);
        lemma_touched_run(m, ino, start, (n - 1) as nat);
        assert forall|k: u128| #[trigger] after.entries.contains_key(k) <==> m.entries.contains_key(
            k,
        ) by {
            assert(before.entries.contains_key(k) <==> m.entries.contains_key(k));
        }
    }
}

} // verus!
