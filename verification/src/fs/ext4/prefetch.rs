//! Reading ahead: pages of a file that lie on disk one behind the other are read
//! together.
use vstd::prelude::*;

use crate::aged::AgedModel;
use crate::errno::SysErrNo;
use crate::fs::ext4::caches::{page_cached, page_key, page_limit};
use crate::fs::ext4::mount::{Ext4Volume, FilesModel};
use crate::fs::ext4::pages::{fill_clean_page_frame, page_of_block, readable};

verus! {

/// Whether the page `i` behind `start` is worth reading ahead: it is not cached,
/// the file reaches so far, and it has a block on disk.
pub open spec fn worth_reading(
    pages: AgedModel<Vec<u8>>,
    ino: u32,
    start: int,
    size: int,
    mapped: Seq<Option<u64>>,
    i: int,
) -> bool {
    &&& !page_cached(pages, ino, start + i)
    &&& (start + i) * 4096 < size
    &&& start + i <= u32::MAX
    &&& i < mapped.len()
    &&& mapped[i] is Some
    &&& mapped[i]->0 <= usize::MAX / 4096
}

/// Whether `n` of at most `count` pages come before the first that is not worth
/// reading ahead.
pub open spec fn ahead(
    pages: AgedModel<Vec<u8>>,
    ino: u32,
    start: int,
    count: int,
    size: int,
    mapped: Seq<Option<u64>>,
    n: int,
) -> bool {
    &&& 0 <= n <= count
    &&& forall|i: int| 0 <= i < n ==> #[trigger] worth_reading(pages, ino, start, size, mapped, i)
    &&& n < count ==> !worth_reading(pages, ino, start, size, mapped, n)
}

/// The places of the first `n` blocks on disk.
pub open spec fn places(mapped: Seq<Option<u64>>, n: int) -> Seq<usize> {
    Seq::new(n as nat, |i: int| (mapped[i]->0 * 4096) as usize)
}

/// A cache once `n` pages were looked for and kept where they were missing.
pub open spec fn kept(
    m: AgedModel<Vec<u8>>,
    ino: u32,
    start: int,
    data: Seq<Vec<u8>>,
    limit: nat,
    n: nat,
) -> AgedModel<Vec<u8>>
    decreases n,
{
    if n == 0 {
        m
    } else {
        let before = kept(m, ino, start, data, limit, (n - 1) as nat);
        let key = page_key(ino, start + n - 1);
        if page_cached(before, ino, start + n - 1) {
            before.touched(key)
        } else {
            before.touched(key).inserted(key, data[n - 1], limit)
        }
    }
}

impl Ext4Volume {
    /// Where the blocks lie that are worth reading ahead together, for at most
    /// `page_count` pages from one on. `mapped` tells on which blocks the pages
    /// lie. One block alone is not worth it.
    pub fn prefetch_offsets(
        &self,
        ino: u32,
        start_page: usize,
        page_count: usize,
        size: usize,
        mapped: &Vec<Option<u64>>,
    ) -> (r: Vec<usize>)
        requires
            self.wf(),
        ensures
            exists|n: int| #[trigger]
                ahead(
                    self.files().pages,
                    ino,
                    start_page as int,
                    page_count as int,
                    size as int,
                    mapped@,
                    n,
                ) && r@ == (if n < 2 {
                    Seq::empty()
                } else {
                    places(mapped@, n)
                }),
    {
        let ghost pages = self.files().pages;
        let free: usize = self.pages.uncached_prefix_len(ino, start_page, page_count);
        let mut offsets: Vec<usize> = Vec::new();
        let mut i: usize = 0;
        let mut more = true;
        assert(offsets@ =~= places(mapped@, 0));
        while i < free && more
            invariant
                0 <= i <= free <= page_count,
                pages == self.files().pages,
                start_page + free <= usize::MAX + 1,
                forall|p: int|
                    start_page <= p < start_page + free ==> !#[trigger] page_cached(pages, ino, p),
                forall|k: int|
                    0 <= k < i ==> #[trigger] worth_reading(
                        pages,
                        ino,
                        start_page as int,
                        size as int,
                        mapped@,
                        k,
                    ),
                !more ==> !worth_reading(
                    pages,
                    ino,
                    start_page as int,
                    size as int,
                    mapped@,
                    i as int,
                ),
                offsets@ == places(mapped@, i as int),
            decreases free - i + (if more { 1int } else { 0 }),
        {
            let page: usize = start_page + i;
            assert(!page_cached(pages, ino, page as int));
            if page > 0xffff_ffff || page > usize::MAX / 4096 || page * 4096 >= size || i
                >= mapped.len() {
                more = false;
            } else {
                match mapped[i] {
                    Some(block) => {
                        if block > (usize::MAX / 4096) as u64 {
                            more = false;
                        } else {
                            offsets.push(block as usize * 4096);
                            assert(worth_reading(
                                pages,
                                ino,
                                start_page as int,
                                size as int,
                                mapped@,
                                i as int,
                            ));
                            assert(offsets@ =~= places(mapped@, i + 1));
                            i = i + 1;
                        }
                    },
                    None => {
                        more = false;
                    },
                }
            }
        }
        assert(ahead(
            pages,
            ino,
            start_page as int,
            page_count as int,
            size as int,
            mapped@,
            i as int,
        ));
        if i < 2 {
            Vec::new()
        } else {
            offsets
        }
    }

    /// Keeps pages that were read ahead. Nothing is kept if a block is missing
    /// or too short.
    pub fn prefetched(
        &mut self,
        ino: u32,
        start_page: usize,
        count: usize,
        size: usize,
        blocks: Vec<Vec<u8>>,
        total_frames: usize,
    ) -> (r: Result<(), SysErrNo>)
        requires
            old(self).wf(),
            count > 0 ==> (start_page + count - 1) * 4096 < size,
        ensures
            final(self).wf(),
            final(self).same_names(old(self)),
            r is Ok <==> blocks@.len() == count && forall|i: int|
                0 <= i < count ==> (#[trigger] blocks@[i])@.len() >= readable(
                    size as int,
                    (start_page + i) * 4096,
                    4096,
                ),
            r is Err ==> r == Err::<(), SysErrNo>(SysErrNo::EIO) && final(self).files()
                == old(self).files(),
            r is Ok ==> exists|data: Seq<Vec<u8>>|
                {
                    &&& data.len() == count
                    &&& forall|i: int|
                        0 <= i < count ==> (#[trigger] data[i])@ == page_of_block(
                            size as int,
                            start_page + i,
                            Some(blocks@[i]),
                        )
                    &&& final(self).files() == (FilesModel {
                        pages: #[trigger] kept(
                            old(self).files().pages,
                            ino,
                            start_page as int,
                            data,
                            page_limit(total_frames as nat),
                            count as nat,
                        ),
                        ..old(self).files()
                    })
                },
    {
        if blocks.len() != count {
            return Err(SysErrNo::EIO);
        }
        let ghost given = blocks@;
        let mut frames: Vec<Vec<u8>> = Vec::new();
        let mut left = blocks;
        assert(given.skip(0) =~= given);
        while frames.len() < count
            invariant
                given.len() == count,
                frames@.len() <= count,
                given == blocks@,
                left@ == given.skip(frames@.len() as int),
                count > 0 ==> (start_page + count - 1) * 4096 < size,
                forall|k: int|
                    0 <= k < frames@.len() ==> (#[trigger] frames@[k])@ == page_of_block(
                        size as int,
                        start_page + k,
                        Some(given[k]),
                    ) && given[k]@.len() >= readable(size as int, (start_page + k) * 4096, 4096),
                self.files() == old(self).files(),
                self.same_names(old(self)),
                self.wf(),
            decreases count - frames@.len(),
        {
            let i: usize = frames.len();
            let page: usize = start_page + i;
            let block = Some(left.remove(0));
            assert(given.skip(i as int).remove(0) =~= given.skip(i + 1));
            assert(block == Some(given[i as int]));
            match fill_clean_page_frame(size, page, &block) {
                Ok(frame) => {
                    assert(given[i as int]@.len() >= readable(
                        size as int,
                        (start_page + i) * 4096,
                        4096,
                    ));
                    frames.push(frame);
                },
                Err(_) => {
                    assert(given[i as int]@.len() < readable(
                        size as int,
                        (start_page + i) * 4096,
                        4096,
                    ));
                    return Err(SysErrNo::EIO);
                },
            }
        }
        let ghost data = frames@;
        let ghost limit = page_limit(total_frames as nat);
        let ghost first = self.files();
        let mut done: usize = 0;
        assert(data.skip(0) =~= data);
        assert forall|k: int| 0 <= k < count implies (#[trigger] given[k])@.len() >= readable(
            size as int,
            (start_page + k) * 4096,
            4096,
        ) by {
            assert(data[k]@.len() == 4096);
        }
        while done < count
            invariant
                done <= count,
                given == blocks@,
                data.len() == count,
                frames@ == data.skip(done as int),
                limit == page_limit(total_frames as nat),
                forall|k: int|
                    0 <= k < count ==> (#[trigger] given[k])@.len() >= readable(
                        size as int,
                        (start_page + k) * 4096,
                        4096,
                    ),
                forall|k: int|
                    0 <= k < count ==> (#[trigger] data[k])@ == page_of_block(
                        size as int,
                        start_page + k,
                        Some(given[k]),
                    ),
                count > 0 ==> (start_page + count - 1) * 4096 < size,
                first == old(self).files(),
                self.files() == (FilesModel {
                    pages: kept(first.pages, ino, start_page as int, data, limit, done as nat),
                    ..first
                }),
                self.same_names(old(self)),
                self.wf(),
            decreases count - done,
        {
            let frame = frames.remove(0);
            assert(data.skip(done as int).remove(0) =~= data.skip(done + 1));
            self.install_page(ino, start_page + done, frame, total_frames);
            done = done + 1;
        }
        Ok(())
    }
}

} // verus!
