//! Partition tables.
use vstd::prelude::*;

use crate::bytes::{all_zero, le_value, read_le, zero_bytes, zeros};
use crate::fs::block_dev::device::{device_bytes, RawBlockDevice, SECTOR_SIZE};

verus! {

/// A partition: its number, its first sector and how many sectors it has.
#[derive(Clone, Copy, PartialEq, Eq, Structural, Debug)]
pub struct PartitionInfo {
    pub index: u32,
    pub start_lba: u64,
    pub sectors: u64,
}

/// The number that bytes hold, least significant byte first.
pub open spec fn number_at(s: Seq<u8>, at: int, k: int) -> nat {
    le_value(s.subrange(at, at + k))
}

/// The partitions of the first `n` entries of a boot record.
pub open spec fn mbr_entries(mbr: Seq<u8>, n: nat) -> Seq<PartitionInfo>
    decreases n,
{
    if n == 0 {
        Seq::empty()
    } else {
        let base = 446 + (n - 1) * 16;
        let before = mbr_entries(mbr, (n - 1) as nat);
        if mbr[base + 4] == 0 || number_at(mbr, base + 12, 4) == 0 {
            before
        } else {
            before.push(
                PartitionInfo {
                    index: n as u32,
                    start_lba: number_at(mbr, base + 8, 4) as u64,
                    sectors: number_at(mbr, base + 12, 4) as u64,
                },
            )
        }
    }
}

/// Whether an entry of a partition table is in use.
pub open spec fn gpt_used(table: Seq<u8>, base: int) -> bool {
    &&& table.subrange(base, base + 16) != zeros(16)
    &&& number_at(table, base + 32, 8) != 0
    &&& number_at(table, base + 40, 8) >= number_at(table, base + 32, 8)
}

/// The partitions of the first `n` entries of a partition table.
pub open spec fn gpt_entries(table: Seq<u8>, size: nat, n: nat) -> Seq<PartitionInfo>
    decreases n,
{
    if n == 0 {
        Seq::empty()
    } else {
        let base = ((n - 1) * size) as int;
        let before = gpt_entries(table, size, (n - 1) as nat);
        if !gpt_used(table, base) {
            before
        } else {
            let first = number_at(table, base + 32, 8);
            let last = number_at(table, base + 40, 8);
            before.push(
                PartitionInfo {
                    index: n as u32,
                    start_lba: first as u64,
                    sectors: (last - first + 1) as u64,
                },
            )
        }
    }
}

/// The signature of a partition table header.
pub open spec fn efi_part() -> Seq<u8> {
    seq![0x45u8, 0x46u8, 0x49u8, 0x20u8, 0x50u8, 0x41u8, 0x52u8, 0x54u8]
}

/// Where a header says that the table of partitions is, how many entries it has
/// and how long each is.
pub open spec fn gpt_header(header: Seq<u8>) -> Option<(u64, nat, nat)> {
    let lba = number_at(header, 72, 8);
    let told = number_at(header, 80, 4);
    let count = if told > 256 {
        256
    } else {
        told
    };
    let size = number_at(header, 84, 4);
    if header.take(8) != efi_part() || lba == 0 || size < 128 || size > 1024 || count == 0 {
        None
    } else {
        Some((lba as u64, count, size))
    }
}

/// The partitions that the partition table of a device tells.
pub open spec fn gpt_partitions<D: RawBlockDevice>(dev: &D) -> Seq<PartitionInfo> {
    match device_bytes(dev, 512, 512) {
        None => Seq::empty(),
        Some(header) => match gpt_header(header) {
            None => Seq::empty(),
            Some((lba, count, size)) => if lba as usize * 512 > usize::MAX {
                Seq::empty()
            } else {
                match device_bytes(dev, lba as usize * 512, (count * size) as int) {
                    None => Seq::empty(),
                    Some(table) => gpt_entries(table, size, count),
                }
            },
        },
    }
}

/// Whether one of the entries of a boot record stands for a partition table.
pub open spec fn protective(mbr: Seq<u8>) -> bool {
    mbr[450] == 0xee || mbr[466] == 0xee || mbr[482] == 0xee || mbr[498] == 0xee
}

/// The partitions of a device.
pub open spec fn partitions<D: RawBlockDevice>(dev: &D) -> Seq<PartitionInfo> {
    match device_bytes(dev, 0, 512) {
        None => Seq::empty(),
        Some(mbr) => if mbr[510] != 0x55 || mbr[511] != 0xaa {
            Seq::empty()
        } else if protective(mbr) && gpt_partitions(dev).len() > 0 {
            gpt_partitions(dev)
        } else {
            mbr_entries(mbr, 4)
        },
    }
}

fn read_sector<D: RawBlockDevice>(dev: &D, offset: usize) -> (r: Option<Vec<u8>>)
    ensures
        match r {
            Some(data) => device_bytes(dev, offset as int, 512) == Some(data@) && data@.len() == 512,
            None => device_bytes(dev, offset as int, 512) is None,
        },
{
    let mut data = zero_bytes(SECTOR_SIZE);
    match dev.read_at(offset, data.as_mut_slice()) {
        Ok(_) => Some(data),
        Err(_) => None,
    }
}

fn is_efi_part(header: &Vec<u8>) -> (r: bool)
    requires
        header@.len() == 512,
    ensures
        r == (header@.take(8) == efi_part()),
{
    let r = header[0] == 0x45 && header[1] == 0x46 && header[2] == 0x49 && header[3] == 0x20
        && header[4] == 0x50 && header[5] == 0x41 && header[6] == 0x52 && header[7] == 0x54;
    proof {
        let t = header@.take(8);
        let e = efi_part();
        if r {
            assert(t =~= e);
        } else if t == e {
            assert(t[0] == e[0] && t[1] == e[1] && t[2] == e[2] && t[3] == e[3]);
            assert(t[4] == e[4] && t[5] == e[5] && t[6] == e[6] && t[7] == e[7]);
        }
    }
    r
}

/// The partitions that the partition table of a device tells.
pub fn parse_gpt_partitions<D: RawBlockDevice>(dev: &D) -> (r: Vec<PartitionInfo>)
    ensures
        r@ == gpt_partitions(dev),
{
    let mut parts: Vec<PartitionInfo> = Vec::new();
    let header = match read_sector(dev, SECTOR_SIZE) {
        Some(header) => header,
        None => {
            return parts;
        },
    };
    let marked = is_efi_part(&header);
    if !marked {
        return parts;
    }
    let lba: u64 = read_le(header.as_slice(), 72, 8);
    let told: u64 = read_le(header.as_slice(), 80, 4);
    let count: usize = if told > 256 {
        256
    } else {
        told as usize
    };
    let size64: u64 = read_le(header.as_slice(), 84, 4);
    if lba == 0 || size64 < 128 || size64 > 1024 || count == 0 {
        return parts;
    }
    let size: usize = size64 as usize;
    assert(count * size <= 256 * 1024) by (nonlinear_arith)
        requires
            count <= 256,
            size <= 1024,
    ;
    let mut table = zero_bytes(count * size);
    let at: usize = lba as usize;
    if at > usize::MAX / SECTOR_SIZE {
        return parts;
    }
    match dev.read_at(at * SECTOR_SIZE, table.as_mut_slice()) {
        Ok(_) => {},
        Err(_) => {
            return parts;
        },
    }
    let ghost all = table@;
    assert(device_bytes(dev, at * 512, (count * size) as int) == Some(all));
    let mut i: usize = 0;
    while i < count
        invariant
            0 <= i <= count <= 256,
            128 <= size <= 1024,
            all == table@,
            all.len() == count * size,
            count * size <= 256 * 1024,
            parts@ == gpt_entries(all, size as nat, i as nat),
        decreases count - i,
    {
        assert(i * size + size <= count * size) by (nonlinear_arith)
            requires
                i + 1 <= count,
        ;
        let base: usize = i * size;
        let blank = all_zero(table.as_slice(), base, base + 16);
        let first: u64 = read_le(table.as_slice(), base + 32, 8);
        let last: u64 = read_le(table.as_slice(), base + 40, 8);
        let ghost before = parts@;
        proof {
            assert(gpt_used(all, base as int) == (!blank && first != 0 && last >= first));
        }
        if !blank && first != 0 && last >= first {
            parts.push(
                PartitionInfo {
                    index: i as u32 + 1,
                    start_lba: first,
                    sectors: last - first + 1,
                },
            );
        }
        i = i + 1;
    }
    parts
}

/// The partitions of a device: by its partition table, if its boot record stands
/// for one that has entries, and by its boot record otherwise.
pub fn parse_mbr_partitions<D: RawBlockDevice>(dev: &D) -> (r: Vec<PartitionInfo>)
    ensures
        r@ == partitions(dev),
{
    let mut parts: Vec<PartitionInfo> = Vec::new();
    let mbr = match read_sector(dev, 0) {
        Some(mbr) => mbr,
        None => {
            return parts;
        },
    };
    if mbr[510] != 0x55 || mbr[511] != 0xaa {
        return parts;
    }
    if mbr[450] == 0xee || mbr[466] == 0xee || mbr[482] == 0xee || mbr[498] == 0xee {
        let gpt = parse_gpt_partitions(dev);
        if gpt.len() > 0 {
            return gpt;
        }
    }
    let mut i: usize = 0;
    while i < 4
        invariant
            0 <= i <= 4,
            mbr@.len() == 512,
            parts@ == mbr_entries(mbr@, i as nat),
        decreases 4 - i,
    {
        let base: usize = 446 + i * 16;
        let start: u64 = read_le(mbr.as_slice(), base + 8, 4);
        let sectors: u64 = read_le(mbr.as_slice(), base + 12, 4);
        if mbr[base + 4] != 0 && sectors != 0 {
            parts.push(PartitionInfo { index: i as u32 + 1, start_lba: start, sectors });
        }
        i = i + 1;
    }
    parts
}

} // verus!
