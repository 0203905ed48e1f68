//! Reading of FAT volumes: short names only.
use vstd::prelude::*;
use vstd::utf8::{decode_utf8, valid_utf8};

use crate::bytes::{append_bytes, copy_range, le_value, read_le, zero_bytes};
use crate::errno::SysErrNo;
use crate::fs::block_dev::device::{BlockRange, RawBlockDevice};
use crate::fs::block_dev::partitions::number_at;
use crate::fs::dirent::{entry_views, DirEntryRecord};
use crate::fs::memfs::model::{nonempty, DirEntryModel};
use crate::fs::path::{normalize_path, normalized, split, split_slash};
use crate::text::{concat3, from_chars, str_eq, string_from_utf8, texts, to_chars};

verus! {

/// Attribute of an entry that may not be written.
pub const ATTR_READ_ONLY: u8 = 0x01;

/// Attribute of the label of a volume.
pub const ATTR_VOLUME_ID: u8 = 0x08;

/// Attribute of a directory.
pub const ATTR_DIRECTORY: u8 = 0x10;

/// Attributes of a part of a long name.
pub const ATTR_LONG_NAME: u8 = 0x0f;

/// Cluster numbers from this one on end a chain.
pub const END_OF_CHAIN: u32 = 0x0fff_fff8;

/// How many clusters a chain may have.
pub const CHAIN_LIMIT: usize = 1000000;

/// The width of the numbers in the table of clusters.
#[derive(Clone, Copy, PartialEq, Eq, Structural, Debug)]
pub enum FatKind {
    Fat16,
    Fat32,
}

/// What is told of a file or directory.
#[derive(Clone, Copy, PartialEq, Eq, Structural, Debug)]
pub struct VfatMetadata {
    pub is_dir: bool,
    pub readonly: bool,
    pub size: u32,
}

/// An entry of a directory.
pub struct DirEntry {
    pub name: String,
    pub is_dir: bool,
    pub readonly: bool,
    pub cluster: u32,
    pub size: u32,
}

/// An entry of a directory, as a mathematical value.
pub struct FatEntry {
    pub name: Seq<char>,
    pub is_dir: bool,
    pub readonly: bool,
    pub cluster: u32,
    pub size: u32,
}

impl View for DirEntry {
    type V = FatEntry;

    open spec fn view(&self) -> FatEntry {
        FatEntry {
            name: self.name@,
            is_dir: self.is_dir,
            readonly: self.readonly,
            cluster: self.cluster,
            size: self.size,
        }
    }
}

/// The views of entries.
pub open spec fn fat_views(entries: Seq<DirEntry>) -> Seq<FatEntry> {
    entries.map_values(|e: DirEntry| e@)
}

/// Whether a character is white space.
pub open spec fn is_white(c: char) -> bool {
    ('\t' <= c <= '\r') || c == ' ' || c == '\u{85}' || c == '\u{a0}' || c == '\u{1680}' || (
    '\u{2000}' <= c <= '\u{200a}') || c == '\u{2028}' || c == '\u{2029}' || c == '\u{202f}' || c
        == '\u{205f}' || c == '\u{3000}'
}

fn white(c: char) -> (r: bool)
    ensures
        r == is_white(c),
{
    (c >= '\t' && c <= '\r') || c == ' ' || c == '\u{85}' || c == '\u{a0}' || c == '\u{1680}' || (c
        >= '\u{2000}' && c <= '\u{200a}') || c == '\u{2028}' || c == '\u{2029}' || c == '\u{202f}'
        || c == '\u{205f}' || c == '\u{3000}'
}

/// The text without white space at its end.
pub open spec fn trimmed_end(s: Seq<char>) -> Seq<char>
    decreases s.len(),
{
    if s.len() > 0 && is_white(s.last()) {
        trimmed_end(s.drop_last())
    } else {
        s
    }
}

/// A character with an ASCII capital made small.
pub open spec fn small_char(c: char) -> char {
    if 'A' <= c <= 'Z' {
        (c as int + 32) as char
    } else {
        c
    }
}

/// The text with ASCII capitals made small.
pub open spec fn small(s: Seq<char>) -> Seq<char> {
    s.map_values(|c: char| small_char(c))
}

fn to_small(s: &str) -> (r: String)
    ensures
        r@ == small(s@),
{
    let chars = to_chars(s);
    let mut out: Vec<char> = Vec::new();
    let mut i: usize = 0;
    while i < chars.len()
        invariant
            0 <= i <= chars@.len(),
            out@ =~= small(chars@).take(i as int),
        decreases chars@.len() - i,
    {
        let c = chars[i];
        let d = if c >= 'A' && c <= 'Z' {
            (c as u32 + 32) as u8 as char
        } else {
            c
        };
        assert(d == small_char(c));
        out.push(d);
        assert(out@ =~= small(chars@).take(i + 1));
        i = i + 1;
    }
    let r = from_chars(&out, 0, out.len());
    assert(out@.subrange(0, out@.len() as int) =~= out@);
    assert(small(chars@).take(i as int) =~= small(chars@));
    r
}

fn trim_end(s: &str) -> (r: String)
    ensures
        r@ == trimmed_end(s@),
{
    let chars = to_chars(s);
    let mut n: usize = chars.len();
    assert(chars@.take(n as int) =~= chars@);
    while n > 0 && white(chars[n - 1])
        invariant
            0 <= n <= chars@.len(),
            trimmed_end(chars@) == trimmed_end(chars@.take(n as int)),
        decreases n,
    {
        assert(chars@.take(n as int).drop_last() =~= chars@.take(n - 1));
        assert(chars@.take(n as int).last() == chars@[n - 1]);
        n = n - 1;
    }
    proof {
        let t = chars@.take(n as int);
        if n > 0 {
            assert(t.last() == chars@[n - 1]);
        }
        assert(trimmed_end(t) == t);
        assert(chars@.subrange(0, n as int) =~= t);
    }
    from_chars(&chars, 0, n)
}

/// The name that eleven bytes of an entry hold.
pub open spec fn short_name_of(raw: Seq<u8>) -> Option<Seq<char>> {
    let base = raw.subrange(0, 8);
    let ext = raw.subrange(8, 11);
    if raw.len() < 11 || raw[0] == 0x00 || raw[0] == 0xe5 || !valid_utf8(base) {
        None
    } else {
        let b = trimmed_end(decode_utf8(base));
        if b.len() == 0 || !valid_utf8(ext) {
            None
        } else {
            let e = trimmed_end(decode_utf8(ext));
            if e.len() == 0 {
                Some(small(b))
            } else {
                Some(small(b + "."@ + e))
            }
        }
    }
}

/// The name that eleven bytes of an entry hold.
pub fn short_name(raw: &[u8]) -> (r: Option<String>)
    ensures
        match r {
            Some(name) => short_name_of(raw@) == Some(name@),
            None => short_name_of(raw@) is None,
        },
{
    if raw.len() < 11 || raw[0] == 0x00 || raw[0] == 0xe5 {
        return None;
    }
    let base = match string_from_utf8(copy_range(raw, 0, 8)) {
        Some(text) => trim_end(text.as_str()),
        None => {
            return None;
        },
    };
    if to_chars(base.as_str()).len() == 0 {
        return None;
    }
    let ext = match string_from_utf8(copy_range(raw, 8, 11)) {
        Some(text) => trim_end(text.as_str()),
        None => {
            return None;
        },
    };
    if to_chars(ext.as_str()).len() == 0 {
        Some(to_small(base.as_str()))
    } else {
        let full = concat3(base.as_str(), ".", ext.as_str());
        Some(to_small(full.as_str()))
    }
}

/// The entry that thirty-two bytes hold; `None` for one that stands for nothing.
pub open spec fn entry_of(raw: Seq<u8>) -> Option<FatEntry> {
    if raw[0] == 0xe5 || raw[11] == ATTR_LONG_NAME || (raw[11] & ATTR_VOLUME_ID) != 0 {
        None
    } else {
        match short_name_of(raw) {
            None => None,
            Some(name) => Some(
                FatEntry {
                    name,
                    is_dir: (raw[11] & ATTR_DIRECTORY) != 0,
                    readonly: (raw[11] & ATTR_READ_ONLY) != 0,
                    cluster: (number_at(raw, 20, 2) * 65536 + number_at(raw, 26, 2)) as u32,
                    size: number_at(raw, 28, 4) as u32,
                },
            ),
        }
    }
}

/// The entries of a directory, given its bytes: up to the first that was never
/// used.
pub open spec fn dir_listing(data: Seq<u8>) -> Seq<FatEntry>
    decreases data.len(),
{
    if data.len() < 32 || data[0] == 0 {
        Seq::empty()
    } else {
        (match entry_of(data.take(32)) {
            Some(e) => seq![e],
            None => Seq::empty(),
        }) + dir_listing(data.skip(32))
    }
}

fn parse_entry(raw: &[u8]) -> (r: Option<DirEntry>)
    requires
        raw@.len() == 32,
    ensures
        match r {
            Some(e) => entry_of(raw@) == Some(e@),
            None => entry_of(raw@) is None,
        },
{
    if raw[0] == 0xe5 || raw[11] == ATTR_LONG_NAME || (raw[11] & ATTR_VOLUME_ID) != 0 {
        return None;
    }
    let name = match short_name(raw) {
        Some(name) => name,
        None => {
            return None;
        },
    };
    let high: u64 = read_le(raw, 20, 2);
    let low: u64 = read_le(raw, 26, 2);
    let size: u64 = read_le(raw, 28, 4);
    proof {
        crate::bytes::le_value_round_trip(raw@.subrange(20, 22));
        crate::bytes::le_value_round_trip(raw@.subrange(26, 28));
        crate::bytes::le_value_round_trip(raw@.subrange(28, 32));
        reveal_with_fuel(crate::bytes::radix, 5);
    }
    Some(
        DirEntry {
            name,
            is_dir: (raw[11] & ATTR_DIRECTORY) != 0,
            readonly: (raw[11] & ATTR_READ_ONLY) != 0,
            cluster: (high * 65536 + low) as u32,
            size: size as u32,
        },
    )
}

/// The entries of a directory, given its bytes.
pub fn parse_dir_entries(data: &[u8]) -> (r: Vec<DirEntry>)
    ensures
        fat_views(r@) == dir_listing(data@),
{
    let mut entries: Vec<DirEntry> = Vec::new();
    let mut at: usize = 0;
    let n: usize = data.len();
    assert(data@.skip(0) =~= data@);
    assert(fat_views(entries@) =~= Seq::empty());
    assert(Seq::<FatEntry>::empty() + dir_listing(data@) =~= dir_listing(data@));
    while n - at >= 32 && data[at] != 0
        invariant
            n == data@.len(),
            0 <= at <= n,
            dir_listing(data@) == fat_views(entries@) + dir_listing(data@.skip(at as int)),
        decreases n - at,
    {
        let raw = copy_range(data, at, at + 32);
        let ghost rest = data@.skip(at as int);
        let ghost before = fat_views(entries@);
        proof {
            assert(rest.take(32) =~= raw@);
            assert(rest.skip(32) =~= data@.skip(at + 32));
        }
        match parse_entry(raw.as_slice()) {
            Some(e) => {
                let ghost v = e@;
                entries.push(e);
                assert(fat_views(entries@) =~= before.push(v));
                assert(before + (seq![v] + dir_listing(data@.skip(at + 32)))
                    =~= before.push(v) + dir_listing(data@.skip(at + 32)));
            },
            None => {
                assert(before + (Seq::<FatEntry>::empty() + dir_listing(data@.skip(at + 32)))
                    =~= before + dir_listing(data@.skip(at + 32)));
            },
        }
        at = at + 32;
    }
    assert(dir_listing(data@.skip(at as int)) =~= Seq::empty()) by {
        if n - at >= 32 {
            assert(data@.skip(at as int)[0] == data@[at as int]);
        }
    }
    assert(fat_views(entries@) + Seq::<FatEntry>::empty() =~= fat_views(entries@));
    entries
}

/// A FAT volume: where its parts lie on its device.
#[derive(Clone, Copy, PartialEq, Eq, Structural, Debug)]
pub struct VfatVolume {
    pub bytes_per_sector: usize,
    pub sectors_per_cluster: usize,
    pub reserved_sectors: u32,
    pub root_entry_count: u32,
    pub root_cluster: u32,
    pub first_data_sector: u32,
    pub root_dir_sector: u32,
    pub fat_kind: FatKind,
}

/// Whether a number is a power of two within bounds.
pub open spec fn power_of_two_in(value: int, min: int, max: int) -> bool {
    min <= value <= max && (value == 1 || value == 2 || value == 4 || value == 8 || value == 16
        || value == 32 || value == 64 || value == 128 || value == 256 || value == 512 || value
        == 1024 || value == 2048 || value == 4096)
}

fn valid_power_of_two(value: usize, min: usize, max: usize) -> (r: bool)
    requires
        max <= 4096,
    ensures
        r == power_of_two_in(value as int, min as int, max as int),
{
    value >= min && value <= max && (value == 1 || value == 2 || value == 4 || value == 8 || value
        == 16 || value == 32 || value == 64 || value == 128 || value == 256 || value == 512
        || value == 1024 || value == 2048 || value == 4096)
}

/// The volume that a boot sector describes.
pub open spec fn volume_of(boot: Seq<u8>) -> Option<VfatVolume> {
    let bps = number_at(boot, 11, 2);
    let spc = boot[13] as nat;
    let reserved = number_at(boot, 14, 2);
    let fats = boot[16] as nat;
    let roots = number_at(boot, 17, 2);
    let total = if number_at(boot, 19, 2) != 0 {
        number_at(boot, 19, 2)
    } else {
        number_at(boot, 32, 4)
    };
    let fat_size = if number_at(boot, 22, 2) != 0 {
        number_at(boot, 22, 2)
    } else {
        number_at(boot, 36, 4)
    };
    let root_cluster = number_at(boot, 44, 4);
    let root_sectors = (roots * 32 + bps - 1) / bps as int;
    let root_at = reserved + fats * fat_size;
    let data_at = root_at + root_sectors;
    let clusters = (total - data_at) / spc as int;
    if boot[510] != 0x55 || boot[511] != 0xaa || !power_of_two_in(bps as int, 512, 4096)
        || !power_of_two_in(spc as int, 1, 128) || reserved == 0 || fats == 0 || total == 0
        || fat_size == 0 || total <= data_at || clusters < 4085 || (clusters >= 65525 && root_cluster
        < 2) {
        None
    } else {
        Some(
            VfatVolume {
                bytes_per_sector: bps as usize,
                sectors_per_cluster: spc as usize,
                reserved_sectors: reserved as u32,
                root_entry_count: roots as u32,
                root_cluster: root_cluster as u32,
                first_data_sector: data_at as u32,
                root_dir_sector: root_at as u32,
                fat_kind: if clusters < 65525 {
                    FatKind::Fat16
                } else {
                    FatKind::Fat32
                },
            },
        )
    }
}

fn field(boot: &Vec<u8>, at: usize, k: usize) -> (r: u64)
    requires
        boot@.len() == 512,
        at + k <= 512,
        k == 2 || k == 4,
    ensures
        r == number_at(boot@, at as int, k as int),
        k == 2 ==> r < 65536,
        r < 0x1_0000_0000,
{
    proof {
        crate::bytes::le_value_round_trip(boot@.subrange(at as int, at + k));
        reveal_with_fuel(crate::bytes::radix, 5);
    }
    read_le(boot.as_slice(), at, k)
}

fn describe(boot: &Vec<u8>) -> (r: Option<VfatVolume>)
    requires
        boot@.len() == 512,
    ensures
        r == volume_of(boot@),
        r is Some ==> r->0.wf(),
{
    if boot[510] != 0x55 || boot[511] != 0xaa {
        return None;
    }
    let bps: u64 = field(boot, 11, 2);
    let spc: u64 = boot[13] as u64;
    let reserved: u64 = field(boot, 14, 2);
    let fats: u64 = boot[16] as u64;
    let roots: u64 = field(boot, 17, 2);
    let total_16: u64 = field(boot, 19, 2);
    let fat_16: u64 = field(boot, 22, 2);
    let total_32: u64 = field(boot, 32, 4);
    let fat_32: u64 = field(boot, 36, 4);
    let root_cluster: u64 = field(boot, 44, 4);
    let bps_ok = valid_power_of_two(bps as usize, 512, 4096);
    let spc_ok = valid_power_of_two(spc as usize, 1, 128);
    if !bps_ok || !spc_ok || reserved == 0 || fats == 0 {
        return None;
    }
    let total: u64 = if total_16 != 0 {
        total_16
    } else {
        total_32
    };
    let fat_size: u64 = if fat_16 != 0 {
        fat_16
    } else {
        fat_32
    };
    if total == 0 || fat_size == 0 {
        return None;
    }
    assert(fats * fat_size <= 255 * 0xffff_ffff) by (nonlinear_arith)
        requires
            fats <= 255,
            fat_size <= 0xffff_ffff,
    ;
    let root_sectors: u64 = (roots * 32 + bps - 1) / bps;
    assert(root_sectors <= roots * 32 + bps - 1) by (nonlinear_arith)
        requires
            bps >= 512,
            root_sectors == (roots * 32 + bps - 1) / bps as int,
            roots >= 0,
    ;
    let root_at: u64 = reserved + fats * fat_size;
    let data_at: u64 = root_at + root_sectors;
    if total <= data_at {
        return None;
    }
    let clusters: u64 = (total - data_at) / spc;
    if clusters < 4085 {
        return None;
    }
    let fat_kind = if clusters < 65525 {
        FatKind::Fat16
    } else {
        FatKind::Fat32
    };
    if fat_kind == FatKind::Fat32 && root_cluster < 2 {
        return None;
    }
    Some(
        VfatVolume {
            bytes_per_sector: bps as usize,
            sectors_per_cluster: spc as usize,
            reserved_sectors: reserved as u32,
            root_entry_count: roots as u32,
            root_cluster: root_cluster as u32,
            first_data_sector: data_at as u32,
            root_dir_sector: root_at as u32,
            fat_kind,
        },
    )
}

impl VfatVolume {
    /// The numbers are within their bounds.
    pub open spec fn wf(&self) -> bool {
        &&& 512 <= self.bytes_per_sector <= 4096
        &&& 1 <= self.sectors_per_cluster <= 128
        &&& self.reserved_sectors < 65536
        &&& self.root_entry_count < 65536
    }

    /// The volume on a part of a device.
    pub fn open<D: RawBlockDevice>(dev: &D, range: &BlockRange) -> (r: Result<Self, SysErrNo>)
        ensures
            match range.bytes_at(dev, 0, 512) {
                Err(e) => r == Err::<VfatVolume, SysErrNo>(e),
                Ok(boot) => match volume_of(boot) {
                    None => r == Err::<VfatVolume, SysErrNo>(SysErrNo::EINVAL),
                    Some(volume) => r == Ok::<VfatVolume, SysErrNo>(volume),
                },
            },
            r is Ok ==> r->Ok_0.wf(),
    {
        let mut boot = zero_bytes(512);
        match range.read_at(dev, 0, boot.as_mut_slice()) {
            Ok(_) => {},
            Err(e) => {
                return Err(e);
            },
        }
        match describe(&boot) {
            Some(volume) => Ok(volume),
            None => Err(SysErrNo::EINVAL),
        }
    }

    /// Where a cluster lies.
    pub open spec fn cluster_at(&self, cluster: u32) -> Option<int> {
        let step = (cluster - 2) * self.sectors_per_cluster;
        let sector = self.first_data_sector + (if step > u32::MAX {
            u32::MAX as int
        } else {
            step
        });
        if cluster < 2 || sector > u32::MAX || sector * self.bytes_per_sector > usize::MAX {
            None
        } else {
            Some(sector * self.bytes_per_sector)
        }
    }

    fn cluster_offset(&self, cluster: u32) -> (r: Result<usize, SysErrNo>)
        requires
            self.wf(),
        ensures
            match r {
                Ok(at) => self.cluster_at(cluster) == Some(at as int),
                Err(e) => self.cluster_at(cluster) is None && e == SysErrNo::EINVAL,
            },
    {
        if cluster < 2 {
            return Err(SysErrNo::EINVAL);
        }
        let spc: u64 = self.sectors_per_cluster as u64;
        let bps: u64 = self.bytes_per_sector as u64;
        assert((cluster - 2) * spc <= 0xffff_ffff * 128) by (nonlinear_arith)
            requires
                0 <= cluster - 2 <= 0xffff_ffff,
                0 <= spc <= 128,
        ;
        let mut step: u64 = (cluster - 2) as u64 * spc;
        if step > 0xffff_ffff {
            step = 0xffff_ffff;
        }
        let sector: u64 = self.first_data_sector as u64 + step;
        if sector > 0xffff_ffff {
            return Err(SysErrNo::EINVAL);
        }
        assert(sector * bps <= 0xffff_ffff * 4096) by (nonlinear_arith)
            requires
                sector <= 0xffff_ffff,
                bps <= 4096,
        ;
        let at: u64 = sector * bps;
        if at > usize::MAX as u64 {
            return Err(SysErrNo::EINVAL);
        }
        Ok(at as usize)
    }

    /// What a cluster holds.
    pub open spec fn cluster_bytes<D: RawBlockDevice>(
        &self,
        dev: &D,
        range: &BlockRange,
        cluster: u32,
    ) -> Result<Seq<u8>, SysErrNo> {
        match self.cluster_at(cluster) {
            None => Err(SysErrNo::EINVAL),
            Some(at) => range.bytes_at(
                dev,
                at,
                self.sectors_per_cluster * self.bytes_per_sector,
            ),
        }
    }

    fn read_cluster<D: RawBlockDevice>(&self, dev: &D, range: &BlockRange, cluster: u32) -> (r: Result<
        Vec<u8>,
        SysErrNo,
    >)
        requires
            self.wf(),
        ensures
            match r {
                Ok(data) => self.cluster_bytes(dev, range, cluster) == Ok::<Seq<u8>, SysErrNo>(
                    data@,
                ),
                Err(e) => self.cluster_bytes(dev, range, cluster) == Err::<Seq<u8>, SysErrNo>(e),
            },
    {
        assert(self.sectors_per_cluster * self.bytes_per_sector <= 128 * 4096) by (nonlinear_arith)
            requires
                self.sectors_per_cluster <= 128,
                self.bytes_per_sector <= 4096,
        ;
        let mut data = zero_bytes(self.sectors_per_cluster * self.bytes_per_sector);
        let at: usize = match self.cluster_offset(cluster) {
            Ok(at) => at,
            Err(e) => {
                return Err(e);
            },
        };
        match range.read_at(dev, at, data.as_mut_slice()) {
            Ok(_) => Ok(data),
            Err(e) => Err(e),
        }
    }

    /// The cluster that follows another in its chain.
    pub open spec fn cluster_after<D: RawBlockDevice>(
        &self,
        dev: &D,
        range: &BlockRange,
        cluster: u32,
    ) -> Result<u32, SysErrNo> {
        let table = self.reserved_sectors * self.bytes_per_sector;
        match self.fat_kind {
            FatKind::Fat16 => match range.bytes_at(dev, table + cluster * 2, 2) {
                Err(e) => Err(e),
                Ok(raw) => if le_value(raw) >= 0xfff8 {
                    Ok(END_OF_CHAIN)
                } else {
                    Ok(le_value(raw) as u32)
                },
            },
            FatKind::Fat32 => match range.bytes_at(dev, table + cluster * 4, 4) {
                Err(e) => Err(e),
                Ok(raw) => Ok((le_value(raw) % 0x1000_0000) as u32),
            },
        }
    }

    fn next_cluster<D: RawBlockDevice>(&self, dev: &D, range: &BlockRange, cluster: u32) -> (r: Result<
        u32,
        SysErrNo,
    >)
        requires
            self.wf(),
            cluster < END_OF_CHAIN,
        ensures
            r == self.cluster_after(dev, range, cluster),
    {
        assert(self.reserved_sectors * self.bytes_per_sector <= 65535 * 4096) by (nonlinear_arith)
            requires
                self.reserved_sectors <= 65535,
                self.bytes_per_sector <= 4096,
        ;
        let table: usize = self.reserved_sectors as usize * self.bytes_per_sector;
        match self.fat_kind {
            FatKind::Fat16 => {
                let mut raw = zero_bytes(2);
                match range.read_at(dev, table + cluster as usize * 2, raw.as_mut_slice()) {
                    Ok(_) => {},
                    Err(e) => {
                        return Err(e);
                    },
                }
                proof {
                    assert(raw@.subrange(0, 2) =~= raw@);
                    crate::bytes::le_value_round_trip(raw@);
                    reveal_with_fuel(crate::bytes::radix, 5);
                }
                let value: u64 = read_le(raw.as_slice(), 0, 2);
                if value >= 0xfff8 {
                    Ok(END_OF_CHAIN)
                } else {
                    Ok(value as u32)
                }
            },
            FatKind::Fat32 => {
                let mut raw = zero_bytes(4);
                match range.read_at(dev, table + cluster as usize * 4, raw.as_mut_slice()) {
                    Ok(_) => {},
                    Err(e) => {
                        return Err(e);
                    },
                }
                proof {
                    assert(raw@.subrange(0, 4) =~= raw@);
                    crate::bytes::le_value_round_trip(raw@);
                    reveal_with_fuel(crate::bytes::radix, 5);
                }
                let value: u64 = read_le(raw.as_slice(), 0, 4);
                Ok((value % 0x1000_0000) as u32)
            },
        }
    }

    /// What a chain of clusters holds, `seen` clusters into it.
    pub open spec fn chain_bytes<D: RawBlockDevice>(
        &self,
        dev: &D,
        range: &BlockRange,
        cluster: u32,
        seen: nat,
    ) -> Result<Seq<u8>, SysErrNo>
        decreases CHAIN_LIMIT + 1 - seen,
    {
        if cluster < 2 || cluster >= END_OF_CHAIN {
            Ok(Seq::empty())
        } else {
            match (
                self.cluster_bytes(dev, range, cluster),
                self.cluster_after(dev, range, cluster),
            ) {
                (Err(e), _) => Err(e),
                (_, Err(e)) => Err(e),
                (Ok(data), Ok(next)) => if seen + 1 > CHAIN_LIMIT {
                    Err(SysErrNo::ELOOP)
                } else {
                    match self.chain_bytes(dev, range, next, seen + 1) {
                        Err(e) => Err(e),
                        Ok(rest) => Ok(data + rest),
                    }
                },
            }
        }
    }

    fn read_cluster_chain<D: RawBlockDevice>(&self, dev: &D, range: &BlockRange, start: u32) -> (r:
        Result<Vec<u8>, SysErrNo>)
        requires
            self.wf(),
        ensures
            match r {
                Ok(data) => self.chain_bytes(dev, range, start, 0) == Ok::<Seq<u8>, SysErrNo>(
                    data@,
                ),
                Err(e) => self.chain_bytes(dev, range, start, 0) == Err::<Seq<u8>, SysErrNo>(e),
            },
    {
        let ghost goal = self.chain_bytes(dev, range, start, 0);
        let mut cluster: u32 = start;
        let mut data: Vec<u8> = Vec::new();
        let mut seen: usize = 0;
        proof {
            if goal is Ok {
                assert(data@ + goal->Ok_0 =~= goal->Ok_0);
            }
        }
        while cluster >= 2 && cluster < END_OF_CHAIN
            invariant
                self.wf(),
                seen <= CHAIN_LIMIT,
                goal == (match self.chain_bytes(dev, range, cluster, seen as nat) {
                    Ok(rest) => Ok::<Seq<u8>, SysErrNo>(data@ + rest),
                    Err(e) => Err(e),
                }),
                goal == self.chain_bytes(dev, range, start, 0),
            decreases CHAIN_LIMIT - seen,
        {
            let part = match self.read_cluster(dev, range, cluster) {
                Ok(part) => part,
                Err(e) => {
                    return Err(e);
                },
            };
            let next: u32 = match self.next_cluster(dev, range, cluster) {
                Ok(next) => next,
                Err(e) => {
                    return Err(e);
                },
            };
            if seen + 1 > CHAIN_LIMIT {
                return Err(SysErrNo::ELOOP);
            }
            let ghost had = data@;
            append_bytes(&mut data, part.as_slice());
            proof {
                let rest = self.chain_bytes(dev, range, next, (seen + 1) as nat);
                if rest is Ok {
                    assert(had + (part@ + rest->Ok_0) =~= data@ + rest->Ok_0);
                }
            }
            cluster = next;
            seen = seen + 1;
        }
        assert(data@ + Seq::<u8>::empty() =~= data@);
        Ok(data)
    }

    /// The entries of the root directory.
    pub open spec fn root_entries<D: RawBlockDevice>(&self, dev: &D, range: &BlockRange) -> Result<
        Seq<FatEntry>,
        SysErrNo,
    > {
        let data = match self.fat_kind {
            FatKind::Fat32 => self.chain_bytes(dev, range, self.root_cluster, 0),
            FatKind::Fat16 => if self.root_dir_sector * self.bytes_per_sector > usize::MAX {
                Err(SysErrNo::EINVAL)
            } else {
                range.bytes_at(
                    dev,
                    self.root_dir_sector * self.bytes_per_sector,
                    self.root_entry_count * 32,
                )
            },
        };
        match data {
            Ok(bytes) => Ok(dir_listing(bytes)),
            Err(e) => Err(e),
        }
    }

    fn read_root_dir<D: RawBlockDevice>(&self, dev: &D, range: &BlockRange) -> (r: Result<
        Vec<DirEntry>,
        SysErrNo,
    >)
        requires
            self.wf(),
        ensures
            match r {
                Ok(entries) => self.root_entries(dev, range) == Ok::<Seq<FatEntry>, SysErrNo>(
                    fat_views(entries@),
                ),
                Err(e) => self.root_entries(dev, range) == Err::<Seq<FatEntry>, SysErrNo>(e),
            },
    {
        match self.fat_kind {
            FatKind::Fat32 => match self.read_cluster_chain(dev, range, self.root_cluster) {
                Ok(data) => Ok(parse_dir_entries(data.as_slice())),
                Err(e) => Err(e),
            },
            FatKind::Fat16 => {
                let mut data = zero_bytes(self.root_entry_count as usize * 32);
                assert(self.root_dir_sector * self.bytes_per_sector <= 0xffff_ffff * 4096)
                    by (nonlinear_arith)
                    requires
                        self.root_dir_sector <= 0xffff_ffff,
                        self.bytes_per_sector <= 4096,
                ;
                let at: u64 = self.root_dir_sector as u64 * self.bytes_per_sector as u64;
                if at > usize::MAX as u64 {
                    return Err(SysErrNo::EINVAL);
                }
                match range.read_at(dev, at as usize, data.as_mut_slice()) {
                    Ok(_) => Ok(parse_dir_entries(data.as_slice())),
                    Err(e) => Err(e),
                }
            },
        }
    }

    /// The entries of a directory.
    pub open spec fn entries_in<D: RawBlockDevice>(
        &self,
        dev: &D,
        range: &BlockRange,
        entry: FatEntry,
    ) -> Result<Seq<FatEntry>, SysErrNo> {
        if entry.cluster < 2 {
            Ok(Seq::empty())
        } else {
            match self.chain_bytes(dev, range, entry.cluster, 0) {
                Ok(bytes) => Ok(dir_listing(bytes)),
                Err(e) => Err(e),
            }
        }
    }

    fn read_dir_entry<D: RawBlockDevice>(&self, dev: &D, range: &BlockRange, entry: &DirEntry) -> (r:
        Result<Vec<DirEntry>, SysErrNo>)
        requires
            self.wf(),
        ensures
            match r {
                Ok(entries) => self.entries_in(dev, range, entry@) == Ok::<Seq<FatEntry>, SysErrNo>(
                    fat_views(entries@),
                ),
                Err(e) => self.entries_in(dev, range, entry@) == Err::<Seq<FatEntry>, SysErrNo>(e),
            },
    {
        if entry.cluster < 2 {
            let none: Vec<DirEntry> = Vec::new();
            assert(fat_views(none@) =~= Seq::empty());
            return Ok(none);
        }
        match self.read_cluster_chain(dev, range, entry.cluster) {
            Ok(data) => Ok(parse_dir_entries(data.as_slice())),
            Err(e) => Err(e),
        }
    }

    /// The entry that names lead to from the entries of a directory.
    pub open spec fn found_from<D: RawBlockDevice>(
        &self,
        dev: &D,
        range: &BlockRange,
        entries: Seq<FatEntry>,
        names: Seq<Seq<char>>,
    ) -> Result<FatEntry, SysErrNo>
        decreases names.len(),
    {
        if names.len() == 0 {
            Err(SysErrNo::ENOENT)
        } else {
            match first_named(entries, names[0]) {
                None => Err(SysErrNo::ENOENT),
                Some(e) => if names.len() == 1 {
                    Ok(e)
                } else if !e.is_dir {
                    Err(SysErrNo::ENOTDIR)
                } else {
                    match self.entries_in(dev, range, e) {
                        Err(e) => Err(e),
                        Ok(inner) => self.found_from(dev, range, inner, names.drop_first()),
                    }
                },
            }
        }
    }

    /// The entry that a path leads to.
    pub open spec fn found<D: RawBlockDevice>(
        &self,
        dev: &D,
        range: &BlockRange,
        path: Seq<char>,
    ) -> Result<FatEntry, SysErrNo> {
        match self.root_entries(dev, range) {
            Err(e) => Err(e),
            Ok(entries) => self.found_from(
                dev,
                range,
                entries,
                nonempty(split(normalized(path))),
            ),
        }
    }

    fn lookup<D: RawBlockDevice>(&self, dev: &D, range: &BlockRange, path: &str) -> (r: Result<
        DirEntry,
        SysErrNo,
    >)
        requires
            self.wf(),
        ensures
            match r {
                Ok(entry) => self.found(dev, range, path@) == Ok::<FatEntry, SysErrNo>(entry@),
                Err(e) => self.found(dev, range, path@) == Err::<FatEntry, SysErrNo>(e),
            },
    {
        let norm = normalize_path(path);
        let names = nonempty_pieces(norm.as_str());
        let mut entries = match self.read_root_dir(dev, range) {
            Ok(entries) => entries,
            Err(e) => {
                return Err(e);
            },
        };
        let ghost all = texts(names@);
        let mut i: usize = 0;
        assert(all.skip(0) =~= all);
        while i < names.len()
            invariant
                self.wf(),
                all == texts(names@),
                0 <= i <= names@.len(),
                self.found(dev, range, path@) == self.found_from(
                    dev,
                    range,
                    fat_views(entries@),
                    all.skip(i as int),
                ),
            decreases names@.len() - i,
        {
            proof {
                assert(all.skip(i as int)[0] == names@[i as int]@);
                assert(all.skip(i as int).drop_first() =~= all.skip(i + 1));
            }
            let entry = match find_named(&entries, names[i].as_str()) {
                Some(entry) => entry,
                None => {
                    return Err(SysErrNo::ENOENT);
                },
            };
            if i + 1 == names.len() {
                return Ok(entry);
            }
            if !entry.is_dir {
                return Err(SysErrNo::ENOTDIR);
            }
            entries = match self.read_dir_entry(dev, range, &entry) {
                Ok(inner) => inner,
                Err(e) => {
                    return Err(e);
                },
            };
            i = i + 1;
        }
        Err(SysErrNo::ENOENT)
    }

    /// What is told of what a path leads to.
    pub fn metadata<D: RawBlockDevice>(&self, dev: &D, range: &BlockRange, path: &str) -> (r: Result<
        VfatMetadata,
        SysErrNo,
    >)
        requires
            self.wf(),
        ensures
            r == (if normalized(path@) == seq!['/'] {
                Ok::<VfatMetadata, SysErrNo>(VfatMetadata { is_dir: true, readonly: true, size: 0 })
            } else {
                match self.found(dev, range, path@) {
                    Err(e) => Err(e),
                    Ok(entry) => Ok(
                        VfatMetadata {
                            is_dir: entry.is_dir,
                            readonly: entry.readonly,
                            size: entry.size,
                        },
                    ),
                }
            }),
    {
        proof {
            reveal_strlit("/");
            assert("/"@ =~= seq!['/']);
        }
        let norm = normalize_path(path);
        if str_eq(norm.as_str(), "/") {
            return Ok(VfatMetadata { is_dir: true, readonly: true, size: 0 });
        }
        match self.lookup(dev, range, path) {
            Ok(entry) => Ok(
                VfatMetadata {
                    is_dir: entry.is_dir,
                    readonly: entry.readonly,
                    size: entry.size,
                },
            ),
            Err(e) => Err(e),
        }
    }

    /// The contents of the file that a path leads to.
    pub fn read_file<D: RawBlockDevice>(&self, dev: &D, range: &BlockRange, path: &str) -> (r: Result<
        Vec<u8>,
        SysErrNo,
    >)
        requires
            self.wf(),
        ensures
            match self.found(dev, range, path@) {
                Err(e) => r == Err::<Vec<u8>, SysErrNo>(e),
                Ok(entry) => if entry.is_dir {
                    r == Err::<Vec<u8>, SysErrNo>(SysErrNo::EISDIR)
                } else if entry.cluster < 2 || entry.size == 0 {
                    r is Ok && r->Ok_0@ == Seq::<u8>::empty()
                } else {
                    match self.chain_bytes(dev, range, entry.cluster, 0) {
                        Err(e) => r == Err::<Vec<u8>, SysErrNo>(e),
                        Ok(data) => r is Ok && r->Ok_0@ == (if data.len() > entry.size {
                            data.take(entry.size as int)
                        } else {
                            data
                        }),
                    }
                },
            },
    {
        let entry = match self.lookup(dev, range, path) {
            Ok(entry) => entry,
            Err(e) => {
                return Err(e);
            },
        };
        if entry.is_dir {
            return Err(SysErrNo::EISDIR);
        }
        if entry.cluster < 2 || entry.size == 0 {
            let none: Vec<u8> = Vec::new();
            return Ok(none);
        }
        match self.read_cluster_chain(dev, range, entry.cluster) {
            Ok(data) => {
                let mut data = data;
                if data.len() > entry.size as usize {
                    data.truncate(entry.size as usize);
                }
                Ok(data)
            },
            Err(e) => Err(e),
        }
    }

    /// The entries of the directory that a path leads to.
    pub open spec fn entries_at<D: RawBlockDevice>(
        &self,
        dev: &D,
        range: &BlockRange,
        path: Seq<char>,
    ) -> Result<Seq<FatEntry>, SysErrNo> {
        if normalized(path) == seq!['/'] {
            self.root_entries(dev, range)
        } else {
            match self.found(dev, range, normalized(path)) {
                Err(e) => Err(e),
                Ok(entry) => if !entry.is_dir {
                    Err(SysErrNo::ENOTDIR)
                } else {
                    self.entries_in(dev, range, entry)
                },
            }
        }
    }

    /// The listing of the directory that a path leads to.
    pub fn list_dir<D: RawBlockDevice>(&self, dev: &D, range: &BlockRange, path: &str) -> (r: Result<
        Vec<DirEntryRecord>,
        SysErrNo,
    >)
        requires
            self.wf(),
        ensures
            match self.entries_at(dev, range, path@) {
                Err(e) => r == Err::<Vec<DirEntryRecord>, SysErrNo>(e),
                Ok(entries) => r is Ok && entry_views(r->Ok_0@) == listed_entries(entries),
            },
    {
        proof {
            reveal_strlit("/");
            assert("/"@ =~= seq!['/']);
        }
        let norm = normalize_path(path);
        let entries = if str_eq(norm.as_str(), "/") {
            match self.read_root_dir(dev, range) {
                Ok(entries) => entries,
                Err(e) => {
                    return Err(e);
                },
            }
        } else {
            let entry = match self.lookup(dev, range, norm.as_str()) {
                Ok(entry) => entry,
                Err(e) => {
                    return Err(e);
                },
            };
            if !entry.is_dir {
                return Err(SysErrNo::ENOTDIR);
            }
            match self.read_dir_entry(dev, range, &entry) {
                Ok(entries) => entries,
                Err(e) => {
                    return Err(e);
                },
            }
        };
        Ok(list_entries(&entries))
    }
}

/// The first entry with a name, capitals or not.
pub open spec fn first_named(entries: Seq<FatEntry>, name: Seq<char>) -> Option<FatEntry>
    decreases entries.len(),
{
    if entries.len() == 0 {
        None
    } else if small(entries[0].name) == small(name) {
        Some(entries[0])
    } else {
        first_named(entries.drop_first(), name)
    }
}

fn find_named(entries: &Vec<DirEntry>, name: &str) -> (r: Option<DirEntry>)
    ensures
        match r {
            Some(e) => first_named(fat_views(entries@), name@) == Some(e@),
            None => first_named(fat_views(entries@), name@) is None,
        },
{
    let wanted = to_small(name);
    let ghost all = fat_views(entries@);
    let mut i: usize = 0;
    assert(all.skip(0) =~= all);
    while i < entries.len()
        invariant
            all == fat_views(entries@),
            0 <= i <= entries@.len(),
            wanted@ == small(name@),
            first_named(all, name@) == first_named(all.skip(i as int), name@),
        decreases entries@.len() - i,
    {
        let e = &entries[i];
        let has = to_small(e.name.as_str());
        assert(all.skip(i as int)[0] == entries@[i as int]@);
        assert(all.skip(i as int).drop_first() =~= all.skip(i + 1));
        if str_eq(has.as_str(), wanted.as_str()) {
            return Some(
                DirEntry {
                    name: e.name.clone(),
                    is_dir: e.is_dir,
                    readonly: e.readonly,
                    cluster: e.cluster,
                    size: e.size,
                },
            );
        }
        i = i + 1;
    }
    None
}

/// A listing of entries, without those for a directory itself and its parent.
pub open spec fn listed_entries(entries: Seq<FatEntry>) -> Seq<DirEntryModel>
    decreases entries.len(),
{
    if entries.len() == 0 {
        Seq::empty()
    } else {
        let before = listed_entries(entries.drop_last());
        let e = entries.last();
        if e.name == "."@ || e.name == ".."@ {
            before
        } else {
            before.push(DirEntryModel { name: e.name, is_dir: e.is_dir })
        }
    }
}

fn list_entries(entries: &Vec<DirEntry>) -> (r: Vec<DirEntryRecord>)
    ensures
        entry_views(r@) == listed_entries(fat_views(entries@)),
{
    let mut r: Vec<DirEntryRecord> = Vec::new();
    let ghost all = fat_views(entries@);
    let mut i: usize = 0;
    assert(all.take(0) =~= Seq::empty());
    assert(entry_views(r@) =~= Seq::empty());
    while i < entries.len()
        invariant
            all == fat_views(entries@),
            0 <= i <= entries@.len(),
            entry_views(r@) == listed_entries(all.take(i as int)),
        decreases entries@.len() - i,
    {
        let e = &entries[i];
        let ghost before = entry_views(r@);
        proof {
            assert(all.take(i + 1).drop_last() =~= all.take(i as int));
            assert(all.take(i + 1).last() == entries@[i as int]@);
        }
        if !str_eq(e.name.as_str(), ".") && !str_eq(e.name.as_str(), "..") {
            r.push(DirEntryRecord { name: e.name.clone(), is_dir: e.is_dir });
            assert(entry_views(r@) =~= before.push(
                DirEntryModel { name: e.name@, is_dir: e.is_dir },
            ));
        }
        i = i + 1;
    }
    assert(all.take(i as int) =~= all);
    r
}

fn nonempty_pieces(path: &str) -> (r: Vec<String>)
    ensures
        texts(r@) == nonempty(split(path@)),
{
    let pieces = split_slash(path);
    let ghost all = texts(pieces@);
    let mut r: Vec<String> = Vec::new();
    let mut i: usize = 0;
    assert(all.take(0) =~= Seq::empty());
    assert(texts(r@) =~= Seq::empty());
    while i < pieces.len()
        invariant
            all == texts(pieces@),
            0 <= i <= pieces@.len(),
            texts(r@) == nonempty(all.take(i as int)),
        decreases pieces@.len() - i,
    {
        let ghost before = texts(r@);
        proof {
            assert(all.take(i + 1).drop_last() =~= all.take(i as int));
            assert(all.take(i + 1).last() == pieces@[i as int]@);
        }
        if to_chars(pieces[i].as_str()).len() > 0 {
            r.push(pieces[i].clone());
            assert(texts(r@) =~= before.push(pieces@[i as int]@));
        }
        i = i + 1;
    }
    assert(all.take(i as int) =~= all);
    r
}

} // verus!
