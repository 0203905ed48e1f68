//! What holds of partitions, ranges and loop devices.
use vstd::prelude::*;

use crate::bytes::{le_value, le_value_round_trip, radix, zeros};
use crate::errno::SysErrNo;
use crate::fs::block_dev::device::{
    device_bytes, sectors_end, sectors_start, stays, without_blocks, BlockRange, RawBlockDevice,
};
use crate::fs::block_dev::loops::attached;
use crate::fs::block_dev::partitions::{gpt_entries, mbr_entries, partitions, PartitionInfo};
use crate::fs::block_dev::registry::{
    all_digits, countable_parts, digits_value, holds_ext4, index_of_text, is_device_of, is_digit,
    is_root_of, loop_index, loop_paths, BlockDevices, LoopBacking,
    RegisteredBlockDevice,
};
use crate::fs::ext4::access::ReadFault;
use crate::fs::ext4::mount::Ext4Volume;
use crate::fs::memfs::model::MemFsModel;
use crate::fs::path::normalized;
use crate::aged::AgedModel;
use crate::text::{decimal, digit};

verus! {

proof fn lemma_four(s: Seq<u8>, at: int)
    requires
        0 <= at,
        at + 4 <= s.len(),
    ensures
        le_value(s.subrange(at, at + 4)) == s[at] as int + 256 * s[at + 1] + 65536 * s[at + 2]
            + 16777216 * s[at + 3],
{
    let t = s.subrange(at, at + 4);
    reveal_with_fuel(le_value, 5);
    assert(t.drop_first().drop_first().drop_first().drop_first().len() == 0);
    assert(t.drop_first()[0] == s[at + 1]);
    assert(t.drop_first().drop_first()[0] == s[at + 2]);
    assert(t.drop_first().drop_first().drop_first()[0] == s[at + 3]);
}

/// The table of a boot sector has four slots of sixteen bytes. A slot with a kind
/// and a length is a partition under the number of the slot, counted from one,
/// with its place and length as the slot tells them; there are no others, and
/// they come in the order of the slots.
pub proof fn slots_are_partitions(mbr: Seq<u8>, n: nat, slot: int)
    requires
        mbr.len() == 512,
        n <= 4,
        1 <= slot <= n,
    ensures
        ({
            let out = mbr_entries(mbr, n);
            let base = 430 + 16 * slot;
            let start = mbr[base + 8] as int + 256 * mbr[base + 9] + 65536 * mbr[base + 10]
                + 16777216 * mbr[base + 11];
            let sectors = mbr[base + 12] as int + 256 * mbr[base + 13] + 65536 * mbr[base + 14]
                + 16777216 * mbr[base + 15];
            &&& mbr[base + 4] != 0 && sectors != 0 <==> exists|i: int|
                0 <= i < out.len() && (#[trigger] out[i]).index == slot
            &&& forall|i: int|
                0 <= i < out.len() && (#[trigger] out[i]).index == slot ==> out[i].start_lba
                    == start && out[i].sectors == sectors
            &&& forall|i: int| 0 <= i < out.len() ==> 1 <= (#[trigger] out[i]).index <= n
            &&& forall|i: int, j: int|
                0 <= i < j < out.len() ==> (#[trigger] out[i]).index < (#[trigger] out[j]).index
        }),
    decreases n,
{
    let out = mbr_entries(mbr, n);
    let before = mbr_entries(mbr, (n - 1) as nat);
    let base = 446 + (n - 1) * 16;
    lemma_four(mbr, base + 8);
    lemma_four(mbr, base + 12);
    lemma_slot_numbers(mbr, (n - 1) as nat);
    if slot < n {
        slots_are_partitions(mbr, (n - 1) as nat, slot);
        if exists|i: int| 0 <= i < before.len() && (#[trigger] before[i]).index == slot {
            let i = choose|i: int| 0 <= i < before.len() && (#[trigger] before[i]).index == slot;
            assert(out[i].index == slot);
        }
        if exists|i: int| 0 <= i < out.len() && (#[trigger] out[i]).index == slot {
            let i = choose|i: int| 0 <= i < out.len() && (#[trigger] out[i]).index == slot;
            assert(before[i].index == slot);
        }
    } else {
        if out.len() > before.len() {
            assert(out[before.len() as int].index == slot);
        }
    }
}

proof fn lemma_slot_numbers(mbr: Seq<u8>, n: nat)
    requires
        n <= 4,
    ensures
        ({
            let out = mbr_entries(mbr, n);
            &&& forall|i: int| 0 <= i < out.len() ==> 1 <= (#[trigger] out[i]).index <= n
            &&& forall|i: int, j: int|
                0 <= i < j < out.len() ==> (#[trigger] out[i]).index < (#[trigger] out[j]).index
        }),
    decreases n,
{
    if n > 0 {
        lemma_slot_numbers(mbr, (n - 1) as nat);
        let out = mbr_entries(mbr, n);
        let before = mbr_entries(mbr, (n - 1) as nat);
        assert forall|i: int| 0 <= i < before.len() implies #[trigger] out[i] == before[i] by {}
        assert(out.len() > before.len() ==> out.len() == before.len() + 1 && out[before.len() as int].index
            == n);
        assert forall|i: int, j: int| 0 <= i < j < out.len() implies (#[trigger] out[i]).index < (
        #[trigger] out[j]).index by {
            assert(out[i] == before[i]);
        }
    }
}

proof fn lemma_gpt_numbers(table: Seq<u8>, size: nat, n: nat)
    requires
        n <= 256,
    ensures
        ({
            let out = gpt_entries(table, size, n);
            &&& forall|i: int| 0 <= i < out.len() ==> 1 <= (#[trigger] out[i]).index <= n
            &&& forall|i: int, j: int|
                0 <= i < j < out.len() ==> (#[trigger] out[i]).index < (#[trigger] out[j]).index
        }),
    decreases n,
{
    if n > 0 {
        lemma_gpt_numbers(table, size, (n - 1) as nat);
        let out = gpt_entries(table, size, n);
        let before = gpt_entries(table, size, (n - 1) as nat);
        assert forall|i: int| 0 <= i < before.len() implies #[trigger] out[i] == before[i] by {}
        assert(out.len() > before.len() ==> out.len() == before.len() + 1 && out[before.len() as int].index
            == n);
        assert forall|i: int, j: int| 0 <= i < j < out.len() implies (#[trigger] out[i]).index < (
        #[trigger] out[j]).index by {
            assert(out[i] == before[i]);
        }
    }
}

/// An entry of a partition table of the newer kind that has a type, begins behind
/// the first sector and does not end before it begins is a partition under its
/// number, counted from one; it reaches from its first sector through its last.
pub proof fn table_entries_are_partitions(table: Seq<u8>, size: nat, n: nat, k: nat)
    requires
        n <= 256,
        1 <= k <= n,
        128 <= size,
        table.len() >= n * size,
    ensures
        ({
            let out = gpt_entries(table, size, n);
            let at = (k - 1) * size;
            let first = le_value(table.subrange(at + 32, at + 40));
            let last = le_value(table.subrange(at + 40, at + 48));
            let typed = exists|b: int| at <= b < at + 16 && #[trigger] table[b] != 0;
            &&& typed && 0 < first <= last <==> exists|i: int|
                0 <= i < out.len() && (#[trigger] out[i]).index == k
            &&& forall|i: int|
                0 <= i < out.len() && (#[trigger] out[i]).index == k ==> out[i].start_lba == first
                    && (last - first < u64::MAX ==> out[i].start_lba + out[i].sectors - 1 == last)
            &&& forall|i: int, j: int|
                0 <= i < j < out.len() ==> (#[trigger] out[i]).index < (#[trigger] out[j]).index
        }),
    decreases n,
{
    let out = gpt_entries(table, size, n);
    let before = gpt_entries(table, size, (n - 1) as nat);
    lemma_gpt_numbers(table, size, (n - 1) as nat);
    assert((n - 1) * size + size == n * size && (n - 1) * size >= 0) by (nonlinear_arith)
        requires
            n >= 1,
    ;
    assert((k - 1) * size >= 0 && (k - 1) * size + size <= n * size) by (nonlinear_arith)
        requires
            1 <= k <= n,
    ;
    if k < n {
        table_entries_are_partitions(table, size, (n - 1) as nat, k);
        if exists|i: int| 0 <= i < before.len() && (#[trigger] before[i]).index == k {
            let i = choose|i: int| 0 <= i < before.len() && (#[trigger] before[i]).index == k;
            assert(out[i].index == k);
        }
        if exists|i: int| 0 <= i < out.len() && (#[trigger] out[i]).index == k {
            let i = choose|i: int| 0 <= i < out.len() && (#[trigger] out[i]).index == k;
            assert(before[i].index == k);
        }
    } else {
        let at = (k - 1) * size;
        let id = table.subrange(at, at + 16);
        le_value_round_trip(table.subrange(at + 32, at + 40));
        le_value_round_trip(table.subrange(at + 40, at + 48));
        reveal_with_fuel(radix, 9);
        if exists|b: int| at <= b < at + 16 && #[trigger] table[b] != 0 {
            let b = choose|b: int| at <= b < at + 16 && #[trigger] table[b] != 0;
            assert(id[b - at] != 0);
        } else {
            assert forall|i: int| 0 <= i < 16 implies id[i] == 0 by {
                assert(table[at + i] == 0);
            }
            assert(id =~= zeros(16));
        }
        if out.len() > before.len() {
            assert(out[before.len() as int].index == k);
        }
    }
}

/// A disk without the mark of a boot sector has no partitions.
pub proof fn unmarked_disks_have_no_partitions<D: RawBlockDevice>(dev: &D)
    requires
        dev.contents().len() >= 512,
        dev.contents()[510] != 0x55 || dev.contents()[511] != 0xaa,
    ensures
        partitions(dev) == Seq::<PartitionInfo>::empty(),
{
    let first = device_bytes(dev, 0, 512);
    if first is Some {
        assert(first->0[510] == dev.contents()[510]);
        assert(first->0[511] == dev.contents()[511]);
    }
}

/// What is read of a range are the bytes of the device that far behind its start,
/// and never a byte outside of it.
pub proof fn a_range_shows_its_part_of_the_device<D: RawBlockDevice>(
    range: &BlockRange,
    dev: &D,
    offset: int,
    len: int,
)
    requires
        0 <= offset,
        0 < len,
        range.bytes_at(dev, offset, len) is Ok,
        range.start + offset + len <= dev.contents().len(),
    ensures
        range.len is Some ==> offset + len <= range.len->0,
        range.bytes_at(dev, offset, len)->Ok_0.len() == len,
        forall|i: int|
            0 <= i < len ==> #[trigger] range.bytes_at(dev, offset, len)->Ok_0[i]
                == dev.contents()[range.start + offset + i],
{
}

/// The range of a partition is exactly its sectors, of 512 bytes each.
pub proof fn a_partition_is_its_sectors(
    d: RegisteredBlockDevice,
    part: PartitionInfo,
    offset: int,
    len: int,
)
    requires
        is_device_of(d, part),
        part.start_lba * 512 + part.sectors * 512 <= usize::MAX,
        0 <= offset,
        0 <= len,
    ensures
        d.range.absolute(offset, len) is Some <==> offset + len <= part.sectors * 512,
        d.range.absolute(offset, len) is Some ==> d.range.absolute(offset, len)->0
            == part.start_lba * 512 + offset,
        d.minor == part.index,
{
}

/// Once bytes were written, no block that holds one of them is kept; all others
/// are.
pub proof fn written_blocks_are_forgotten(
    m: AgedModel<Seq<u8>>,
    start: int,
    len: int,
    k: u128,
)
    requires
        0 <= start,
        0 <= len,
        k % 4096 == 0,
        m.entries.contains_key(k),
        start + len <= usize::MAX,
    ensures
        without_blocks(m, start, len).entries.contains_key(k) <==> start + len <= k || k + 4096
            <= start || len == 0,
        without_blocks(m, start, len).entries.contains_key(k) ==> without_blocks(
            m,
            start,
            len,
        ).entries[k] == m.entries[k],
{
}

proof fn lemma_digit_text(i: nat)
    requires
        i < 4,
    ensures
        decimal(i) == seq![digit(i as int)],
        index_of_text(decimal(i)) == Some(i),
{
    let s = decimal(i);
    assert(s.drop_last() =~= Seq::<char>::empty());
    assert(digits_value(s.drop_last()) == 0);
    assert(digits_value(s) == i);
    assert(all_digits(s));
}

/// Each loop device is found under each of its three names.
pub proof fn loop_names_lead_to_their_device(i: nat)
    requires
        i < 4,
    ensures
        loop_index("/dev/loop"@ + decimal(i)) == Some(i),
        loop_index("/dev/loop/"@ + decimal(i)) == Some(i),
        loop_index("/dev/block/loop"@ + decimal(i)) == Some(i),
{
    lemma_digit_text(i);
    reveal_strlit("/dev/loop");
    reveal_strlit("/dev/loop/");
    reveal_strlit("/dev/block/loop");
    let d = decimal(i);
    let a = "/dev/loop"@ + d;
    let b = "/dev/loop/"@ + d;
    let c = "/dev/block/loop"@ + d;
    assert(a.take(9) =~= "/dev/loop"@ && a.skip(9) =~= d);
    assert(b.take(10) =~= "/dev/loop/"@ && b.skip(10) =~= d);
    assert(c.take(15) =~= "/dev/block/loop"@ && c.skip(15) =~= d);
    assert(b.take(9) =~= "/dev/loop"@);
    assert(b.skip(9)[0] == '/');
    assert(!all_digits(b.skip(9))) by {
        assert(!is_digit(b.skip(9)[0]));
    }
    assert(c.take(9)[5] == 'b');
    assert("/dev/loop"@[5] == 'l');
    assert(c.take(10)[5] == 'b');
    assert("/dev/loop/"@[5] == 'l');
}

/// A loop device shows the file that was attached to it: what is read of the
/// device are the bytes of the file from that offset on, up to its end.
pub proof fn a_loop_device_shows_its_file(
    was: &BlockDevices,
    b: &BlockDevices,
    index: usize,
    name: String,
    mem: MemFsModel,
    vol: &Ext4Volume,
    vol_was: &Ext4Volume,
    offset: usize,
    before: Seq<u8>,
    after: Seq<u8>,
    disk: Seq<u8>,
    n: usize,
)
    requires
        (b.loops@, Ok::<(), SysErrNo>(())) == attached(
            was.loops@,
            index,
            LoopBacking::MemFile { path: name },
        ),
        b.loop_read_done(mem, vol, vol_was, index, offset, before, after, disk, Ok::<
            usize,
            ReadFault,
        >(n)),
    ensures
        was.loops@[index as int].backing is None,
        mem.file_index(normalized(name@)) is Some,
        ({
            let content = mem.backing_of(normalized(name@)).content;
            &&& n <= before.len()
            &&& offset >= content.len() ==> n == 0
            &&& offset < content.len() && n < before.len() ==> offset + n == content.len()
            &&& n > 0 ==> offset + n <= content.len()
            &&& forall|i: int| 0 <= i < n ==> #[trigger] after[i] == content[offset + i]
            &&& forall|i: int| n <= i < before.len() ==> #[trigger] after[i] == before[i]
        }),
        *vol == *vol_was,
{
}

/// A number that is written in decimal digits is read back from them.
pub proof fn decimals_are_read_back(n: nat)
    ensures
        decimal(n).len() > 0,
        all_digits(decimal(n)),
        digits_value(decimal(n)) == n,
    decreases n,
{
    let s = decimal(n);
    if n >= 10 {
        decimals_are_read_back(n / 10);
        assert(s.drop_last() =~= decimal(n / 10));
        assert forall|i: int| 0 <= i < s.len() implies is_digit(#[trigger] s[i]) by {
            if i < s.len() - 1 {
                assert(s[i] == decimal(n / 10)[i]);
            }
        }
    } else {
        assert(s.drop_last() =~= Seq::<char>::empty());
        assert(digits_value(s.drop_last()) == 0);
    }
}

/// Blocks that are read together are as on the device, if those kept are.
pub proof fn blocks_read_together_are_as_on_the_device<D: RawBlockDevice>(
    was: &BlockRange,
    after: &BlockRange,
    dev: &D,
    offsets: Seq<usize>,
    blocks: Vec<Vec<u8>>,
    i: int,
)
    requires
        was.shows(dev),
        after.blocks_read(was, dev, offsets, Ok::<Vec<Vec<u8>>, SysErrNo>(blocks)),
        0 <= i < offsets.len(),
    ensures
        blocks@.len() == offsets.len(),
        blocks@[i]@ == dev.contents().subrange(
            was.start + offsets[i],
            was.start + offsets[i] + 4096,
        ),
        after.start == was.start && after.len == was.len,
        after.shows(dev),
{
}

/// A write touches no byte outside of the sectors that it lies in, and if those
/// can be read none but its own.
pub proof fn a_write_stays_in_its_sectors(offset: int, len: int, p: int, around: Option<SysErrNo>)
    requires
        0 <= offset,
        0 < len,
    ensures
        sectors_start(offset) % 512 == 0 && sectors_end(offset, len) % 512 == 0,
        sectors_start(offset) <= offset < sectors_start(offset) + 512,
        offset + len <= sectors_end(offset, len) < offset + len + 512,
        stays(None, offset, len, p) <==> p < offset || offset + len <= p,
        p < sectors_start(offset) || sectors_end(offset, len) <= p ==> stays(
            around,
            offset,
            len,
            p,
        ),
        offset <= p < offset + len ==> !stays(around, offset, len, p),
{
}

/// The root is a device with the file system of the root if there is one: the
/// whole disk before any partition, and of those the first.
pub proof fn the_root_holds_the_file_system<D: RawBlockDevice>(
    dev: &D,
    devices: Seq<RegisteredBlockDevice>,
    root: int,
    j: int,
)
    requires
        is_root_of(dev, devices, root),
        0 <= j < devices.len(),
        holds_ext4(dev, &devices[j].range),
    ensures
        holds_ext4(dev, &devices[root].range),
        root <= j,
{
}

/// A range holds the file system exactly if two bytes of its second kilobyte say
/// so.
pub proof fn the_mark_tells_the_file_system<D: RawBlockDevice>(dev: &D, range: &BlockRange, mark: Seq<u8>)
    requires
        range.bytes_at(dev, 1080, 2) == Ok::<Seq<u8>, SysErrNo>(mark),
        mark.len() == 2,
    ensures
        holds_ext4(dev, range) <==> mark[0] == 0x53 && mark[1] == 0xef,
{
    reveal_with_fuel(le_value, 3);
    assert(mark.drop_first()[0] == mark[1]);
    assert(mark.drop_first().drop_first().len() == 0);
}

/// The partitions that are registered are those whose bytes can be counted, in
/// their order.
pub proof fn countable_partitions_are_registered(parts: Seq<PartitionInfo>, p: PartitionInfo)
    requires
        p.start_lba * 512 <= usize::MAX,
        p.sectors * 512 <= usize::MAX,
    ensures
        countable_parts(parts.push(p)) == countable_parts(parts).push(p),
        countable_parts(Seq::<PartitionInfo>::empty()) == Seq::<PartitionInfo>::empty(),
{
    assert(parts.push(p).drop_last() =~= parts);
}

proof fn lemma_loop_paths(n: nat, i: nat)
    requires
        i < n,
    ensures
        loop_paths(n).contains("/dev/loop"@ + decimal(i)),
        loop_paths(n).contains("/dev/loop/"@ + decimal(i)),
        loop_paths(n).contains("/dev/block/loop"@ + decimal(i)),
    decreases n,
{
    let before = loop_paths((n - 1) as nat);
    let all = loop_paths(n);
    if i < n - 1 {
        lemma_loop_paths((n - 1) as nat, i);
        let a = choose|k: int| 0 <= k < before.len() && before[k] == "/dev/loop"@ + decimal(i);
        let b = choose|k: int| 0 <= k < before.len() && before[k] == "/dev/loop/"@ + decimal(i);
        let c = choose|k: int|
            0 <= k < before.len() && before[k] == "/dev/block/loop"@ + decimal(i);
        assert(all[a] == before[a] && all[b] == before[b] && all[c] == before[c]);
    } else {
        let k = before.len() as int;
        assert(all[k] == "/dev/loop"@ + decimal(i));
        assert(all[k + 1] == "/dev/loop/"@ + decimal(i));
        assert(all[k + 2] == "/dev/block/loop"@ + decimal(i));
    }
}

/// The paths of devices that are listed are those of all registered ones and all
/// names of the four loop devices.
pub proof fn all_devices_are_listed(b: &BlockDevices, d: int, i: nat)
    requires
        i < 4,
    ensures
        0 <= d < b.devices@.len() ==> b.listed_paths().contains(b.devices@[d].path@),
        b.listed_paths().contains("/dev/loop"@ + decimal(i)),
        b.listed_paths().contains("/dev/loop/"@ + decimal(i)),
        b.listed_paths().contains("/dev/block/loop"@ + decimal(i)),
{
    let all = b.listed_paths();
    if 0 <= d < b.devices@.len() {
        assert(all[d] == b.devices@[d].path@);
    }
    lemma_loop_paths(4, i);
    let loops = loop_paths(4);
    let k = b.devices@.len() + 1;
    let x = choose|x: int| 0 <= x < loops.len() && loops[x] == "/dev/loop"@ + decimal(i);
    let y = choose|y: int| 0 <= y < loops.len() && loops[y] == "/dev/loop/"@ + decimal(i);
    let z = choose|z: int| 0 <= z < loops.len() && loops[z] == "/dev/block/loop"@ + decimal(i);
    assert(all[k + x] == loops[x] && all[k + y] == loops[y] && all[k + z] == loops[z]);
}

/// A device is found under its path: the first that was registered under it.
pub proof fn devices_are_found_by_their_path(b: &BlockDevices, d: int)
    requires
        0 <= d < b.devices@.len(),
        forall|j: int| 0 <= j < d ==> (#[trigger] b.devices@[j]).path@ != b.devices@[d].path@,
    ensures
        b.device_at(b.devices@[d].path@) == Some(d),
{
    let path = b.devices@[d].path@;
    assert(b.is_first_at(path, d));
    let i = choose|i: int| b.is_first_at(path, i);
    assert(b.is_first_at(path, i));
    if i < d {
        assert(b.devices@[i].path@ == path);
    } else if d < i {
        assert(b.devices@[d].path@ == path);
    }
}

} // verus!
