//! How paths, blocks and pages of a volume are found.
use vstd::prelude::*;

use crate::bytes::{le_bytes, le_round_trip, le_value};
use crate::errno::SysErrNo;
use crate::fs::ext4::caches::{
    block_key, page_cached, page_key, page_limit, run_holds, PblockRun, QueueModel,
};
use crate::fs::ext4::movement::{lemma_step, lemma_walk_push};
use crate::fs::ext4::pages::{
    block_byte, extent_block, page_of_block, run_noted, shows_byte,
};
use crate::fs::ext4::prefetch::{ahead, places, worth_reading};
use crate::fs::ext4::regular::CachedRegularFile;
use crate::fs::ext4::resolve::word_bytes;
use crate::fs::ext4::sync::{shows_ext4, told_of_failure};
use crate::fs::ext4::types::{kind_of_mode, Ext4NodeKind};
use crate::fs::ext4::volume::{Ext4Names, Fault, Found, Load, TreeModel};
use crate::fs::path::{is_absolute, normalized, parts_of};
use crate::aged::AgedModel;

verus! {

/// Paths are walked name by name: the last name of a path is looked up in the
/// directory that the names before it lead to, and leads to the inode of its
/// entry there; nothing lies below what is no directory.
pub proof fn names_are_looked_up_in_their_directory(
    t: TreeModel,
    names: Seq<Seq<char>>,
    name: Seq<char>,
    dir: u32,
    kind: Ext4NodeKind,
)
    requires
        t.inodes.contains_key(2),
        t.inodes[2].mode & 0o170000 == 0o040000,
        t.walk(2, names) == Ok::<Found, Load>(Some((dir, kind))),
        t.dirs.contains_key(dir as u128),
    ensures
        kind != Ext4NodeKind::Directory ==> t.walk(2, names.push(name)) == Ok::<Found, Load>(None),
        kind == Ext4NodeKind::Directory && !t.dirs[dir as u128].contains_key(name) ==> t.walk(
            2,
            names.push(name),
        ) == Ok::<Found, Load>(None),
        kind == Ext4NodeKind::Directory && t.dirs[dir as u128].contains_key(name) ==> {
            let ino = t.dirs[dir as u128][name].ino;
            &&& !t.inodes.contains_key(ino as u128) ==> t.walk(2, names.push(name)) == Err::<
                Found,
                Load,
            >(Load::Inode(ino))
            &&& t.inodes.contains_key(ino as u128) ==> t.walk(2, names.push(name)) == Ok::<
                Found,
                Load,
            >(Some((ino, kind_of_mode(t.inodes[ino as u128].mode))))
        },
        t.walk(2, Seq::<Seq<char>>::empty()) == Ok::<Found, Load>(
            Some((2, Ext4NodeKind::Directory)),
        ),
{
    lemma_walk_push(t, 2, names, name);
    lemma_step(t, dir, name);
}

/// A path of which nothing is remembered leads where its names lead from the root,
/// the second inode; two spellings of one path lead to the same.
pub proof fn a_path_leads_where_its_names_lead(v: &Ext4Names, a: Seq<char>, b: Seq<char>)
    requires
        is_absolute(normalized(a)),
        normalized(a) == normalized(b),
        !v.paths.found@.contains_key(normalized(a)),
        !v.paths.missing@.contains_key(normalized(a)),
    ensures
        v.lookup_spec(a) == v.tree().walk(2, parts_of(normalized(a))),
        v.lookup_spec(a) == v.lookup_spec(b),
        v.mounted && v.lookup_spec(a) == Ok::<Found, Load>(None) ==> v.find_spec(a) == Err::<
            (u32, Ext4NodeKind),
            Fault,
        >(Fault::Sys(SysErrNo::ENOENT)),
        v.find_spec(a) is Ok ==> v.lookup_spec(a) == Ok::<Found, Load>(Some(v.find_spec(a)->Ok_0)),
        !v.mounted ==> v.find_spec(a) is Err,
{
}

/// The blocks of an extent lie one behind the other from its first on, and a block
/// outside of it is not in it.
pub proof fn an_extent_is_in_one_piece(first: u32, len: u32, pblock: u64, lblock: u32)
    requires
        first + len < u32::MAX,
        pblock + len <= u64::MAX,
    ensures
        extent_block(first, len, pblock, lblock) is Some <==> first <= lblock < first + len,
        len > 0 ==> extent_block(first, len, pblock, first) == Some(pblock),
        first <= lblock && lblock + 1 < first + len ==> extent_block(
            first,
            len,
            pblock,
            (lblock + 1) as u32,
        )->0 == extent_block(first, len, pblock, lblock)->0 + 1,
{
}

/// A run of blocks that was noted is found again at its first block.
pub proof fn a_noted_run_is_found(
    before: AgedModel<PblockRun>,
    after: AgedModel<PblockRun>,
    ino: u32,
    lblock: u32,
    len: u32,
    first: u64,
    k: u128,
)
    requires
        run_noted(before, after, ino, lblock, len, first),
        len > 0,
        run_holds(after, k, ino, lblock),
    ensures
        after.entries[k].value.start_pblock + (block_key(ino, lblock) - k) == first,
        run_holds(after, block_key(ino, lblock), ino, lblock),
{
    assert(after.entries.contains_key(block_key(ino, lblock)));
}

/// A byte that is read through a page is the byte of the block that the page was
/// filled from, just as without pages.
pub proof fn pages_show_their_blocks(
    pages: AgedModel<Vec<u8>>,
    ino: u32,
    blocks: Seq<Option<Vec<u8>>>,
    first: int,
    size: int,
    p: int,
    b: u8,
)
    requires
        0 <= first,
        first * 4096 <= p < size,
        p / 4096 - first < blocks.len(),
        p / 4096 <= usize::MAX,
        pages.entries.contains_key(page_key(ino, p / 4096)),
        pages.entries[page_key(ino, p / 4096)].value@ == page_of_block(
            size,
            p / 4096,
            blocks[p / 4096 - first],
        ),
        shows_byte(pages, ino, p, b),
    ensures
        b == block_byte(blocks, first, p),
        blocks[p / 4096 - first] is None ==> b == 0,
        blocks[p / 4096 - first] is Some ==> b == blocks[p / 4096 - first]->0@[p - p / 4096 * 4096],
{
    assert(p / 4096 * 4096 + p % 4096 == p);
}

/// Behind the end of a file its last page holds zeros.
pub proof fn pages_end_in_zeros(size: int, page: int, block: Option<Vec<u8>>, i: int)
    requires
        0 <= i < 4096,
        page * 4096 + i >= size,
    ensures
        page_of_block(size, page, block)[i] == 0,
        page_of_block(size, page, block).len() == 4096,
{
}

/// A block that is read ahead is read from where it lies.
pub proof fn blocks_are_read_where_they_lie(mapped: Seq<Option<u64>>, n: int, i: int)
    requires
        0 <= i < n <= mapped.len(),
        mapped[i] is Some,
        mapped[i]->0 <= usize::MAX / 4096,
    ensures
        places(mapped, n).len() == n,
        places(mapped, n)[i] / 4096 == mapped[i]->0,
        places(mapped, n)[i] % 4096 == 0,
{
}

/// Clean pages get a thirty-second of the memory, but never fewer than 2048 and
/// never more than 65536.
pub proof fn pages_get_their_share(frames: nat)
    ensures
        2048 <= page_limit(frames) <= 65536,
        page_limit(frames) * 32 > frames ==> page_limit(frames) == 2048,
        page_limit(frames) * 32 + 31 < frames ==> page_limit(frames) == 65536,
{
}

/// Of the files that wait to be written one is next: it still waits, and all that
/// came before it do so no longer.
pub proof fn files_are_written_in_turn(q: QueueModel, i: int, j: int)
    requires
        q.is_next(i),
        0 <= j < q.pending.len(),
        q.queued.contains(q.pending[j]),
    ensures
        i <= j,
        q.queued.contains(q.pending[i]),
        q.is_next(j) <==> i == j,
{
}

/// A failure that was told is told no second time; nothing else changes of the
/// file.
pub proof fn a_failure_is_told_once(f: CachedRegularFile, e: SysErrNo)
    ensures
        told_of_failure(f, e).dirty.last_error != Some(e),
        f.dirty.last_error != Some(e) ==> told_of_failure(f, e) == f,
        told_of_failure(f, e).dirty.ranges == f.dirty.ranges,
        told_of_failure(f, e).dirty.writeback == f.dirty.writeback,
        told_of_failure(f, e).dirty.pending() == f.dirty.pending(),
        told_of_failure(f, e).size == f.size,
{
}

/// The target of a short link is kept in words of four bytes, the least
/// significant byte first.
pub proof fn words_hold_four_bytes(words: Seq<u32>, w: u32)
    ensures
        word_bytes(words).len() == words.len() * 4,
        word_bytes(words.push(w)).take(words.len() as int * 4) == word_bytes(words),
        word_bytes(words.push(w))[words.len() as int * 4] == w % 256,
        word_bytes(words.push(w))[words.len() as int * 4 + 1] == w / 256 % 256,
        word_bytes(words.push(w))[words.len() as int * 4 + 2] == w / 65536 % 256,
        word_bytes(words.push(w))[words.len() as int * 4 + 3] == w / 16777216,
    decreases words.len(),
{
    let all = words.push(w);
    assert(all.drop_last() =~= words);
    le_round_trip(w as nat, 4);
    reveal_with_fuel(le_bytes, 5);
    if words.len() > 0 {
        words_hold_four_bytes(words.drop_last(), words.last());
        assert(words.drop_last().push(words.last()) =~= words);
        le_round_trip(words.last() as nat, 4);
    }
    assert(word_bytes(all) == word_bytes(words) + le_bytes(w as nat, 4));
    assert(word_bytes(all).take(words.len() as int * 4) =~= word_bytes(words));
    let n = w as int;
    assert(n / 256 / 256 == n / 65536 && n / 256 / 256 / 256 == n / 16777216) by (nonlinear_arith)
        requires
            n >= 0,
    ;
    let b = le_bytes(w as nat, 4);
    let b1 = le_bytes(w as nat / 256, 3);
    let b2 = le_bytes(w as nat / 256 / 256, 2);
    let b3 = le_bytes(w as nat / 256 / 256 / 256, 1);
    assert(b == seq![(w as nat % 256) as u8] + b1);
    assert(b1 == seq![(w as nat / 256 % 256) as u8] + b2);
    assert(b2 == seq![(w as nat / 256 / 256 % 256) as u8] + b3);
    assert(b3 == seq![(w as nat / 256 / 256 / 256 % 256) as u8] + le_bytes(
        w as nat / 256 / 256 / 256 / 256,
        0,
    ));
    le_round_trip(w as nat / 256, 3);
    le_round_trip(w as nat / 256 / 256, 2);
    le_round_trip(w as nat / 256 / 256 / 256, 1);
    assert(b[1] == b1[0] && b[2] == b1[1] && b[3] == b1[2]);
    assert(b1[1] == b2[0] && b1[2] == b2[1] && b2[1] == b3[0]);
}

/// Only pages that are not held yet, lie in the file and have a place on disk are
/// read ahead, one behind the other without a gap, and reading stops only before
/// one that is not so.
pub proof fn only_missing_pages_are_read_ahead(
    pages: AgedModel<Vec<u8>>,
    ino: u32,
    start: int,
    count: int,
    size: int,
    mapped: Seq<Option<u64>>,
    n: int,
    i: int,
)
    requires
        ahead(pages, ino, start, count, size, mapped, n),
        0 <= start,
        0 <= i < n,
    ensures
        n <= count,
        !page_cached(pages, ino, start + i),
        (start + i) * 4096 < size,
        i < mapped.len() && mapped[i] is Some,
        n < count && n < mapped.len() && mapped[n] is Some && mapped[n]->0 <= usize::MAX / 4096
            && start + n <= u32::MAX && (start + n) * 4096 < size ==> page_cached(
            pages,
            ino,
            start + n,
        ),
{
    assert(worth_reading(pages, ino, start, size, mapped, i));
}

/// A first block shows the file system exactly if two bytes of its second kilobyte
/// say so.
pub proof fn the_first_block_tells_the_file_system(block: Seq<u8>)
    ensures
        shows_ext4(block) <==> block.len() >= 1082 && block[1080] == 0x53 && block[1081] == 0xef,
{
    if block.len() >= 1082 {
        let mark = block.subrange(0x438, 0x43a);
        reveal_with_fuel(le_value, 3);
        assert(mark[0] == block[1080] && mark[1] == block[1081]);
        assert(mark.drop_first()[0] == mark[1]);
        assert(mark.drop_first().drop_first().len() == 0);
    }
}

} // verus!
