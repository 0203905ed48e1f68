//! How a FAT volume is laid out, and what its paths lead to.
use vstd::prelude::*;

use crate::bytes::{le_bytes, le_round_trip, radix};
use crate::errno::SysErrNo;
use crate::fs::block_dev::device::{BlockRange, RawBlockDevice};
use crate::fs::block_dev::partitions::number_at;
use crate::fs::memfs::model::DirEntryModel;
use crate::fs::vfat::{
    dir_listing, entry_of, first_named, listed_entries, small, volume_of, FatEntry, FatKind,
    VfatVolume,
};

verus! {

/// A volume holds its tables, then its root directory if that has a place of its
/// own, then its data: the root directory has room for its entries and no whole
/// sector more, the data lie within the volume, and how many clusters they make
/// decides of the width of the tables.
pub proof fn a_volume_is_laid_out_in_order(boot: Seq<u8>, v: VfatVolume, clusters: int)
    requires
        boot.len() == 512,
        volume_of(boot) == Some(v),
        clusters >= 0,
        ({
            let short = boot[19] as int + 256 * boot[20];
            let long = boot[32] as int + 256 * boot[33] + 65536 * boot[34] + 16777216 * boot[35];
            let total = if short != 0 {
                short
            } else {
                long
            };
            clusters * v.sectors_per_cluster <= total - v.first_data_sector < (clusters + 1)
                * v.sectors_per_cluster
        }),
    ensures
        boot[510] == 0x55 && boot[511] == 0xaa,
        v.wf(),
        v.bytes_per_sector == boot[11] as int + 256 * boot[12],
        v.sectors_per_cluster == boot[13],
        v.reserved_sectors == boot[14] as int + 256 * boot[15],
        v.root_entry_count == boot[17] as int + 256 * boot[18],
        0 < v.reserved_sectors < v.root_dir_sector <= v.first_data_sector,
        v.root_entry_count * 32 <= (v.first_data_sector - v.root_dir_sector) * v.bytes_per_sector,
        (v.first_data_sector - v.root_dir_sector) * v.bytes_per_sector < v.root_entry_count * 32
            + v.bytes_per_sector,
        clusters >= 4085,
        v.fat_kind == FatKind::Fat16 <==> clusters < 65525,
        v.fat_kind == FatKind::Fat32 ==> v.root_cluster >= 2,
        boot[22] as int + 256 * boot[23] != 0 ==> v.root_dir_sector - v.reserved_sectors
            == boot[16] * (boot[22] as int + 256 * boot[23]),
{
    lemma_two(boot, 11);
    lemma_two(boot, 14);
    lemma_two(boot, 17);
    lemma_two(boot, 19);
    lemma_two(boot, 22);
    lemma_four(boot, 32);
    lemma_four(boot, 36);
    lemma_four(boot, 44);
    let bps = number_at(boot, 11, 2) as int;
    let spc = boot[13] as int;
    let roots = number_at(boot, 17, 2) as int;
    let fats = boot[16] as int;
    let fat_size = if number_at(boot, 22, 2) != 0 {
        number_at(boot, 22, 2) as int
    } else {
        number_at(boot, 36, 4) as int
    };
    let total = if number_at(boot, 19, 2) != 0 {
        number_at(boot, 19, 2) as int
    } else {
        number_at(boot, 32, 4) as int
    };
    let root_sectors = (roots * 32 + bps - 1) / bps;
    assert(fats * fat_size >= 1) by (nonlinear_arith)
        requires
            fats >= 1,
            fat_size >= 1,
    ;
    assert(roots * 32 <= root_sectors * bps < roots * 32 + bps) by (nonlinear_arith)
        requires
            bps > 0,
            roots >= 0,
            root_sectors == (roots * 32 + bps - 1) / bps,
    ;
    assert(root_sectors >= 0) by (nonlinear_arith)
        requires
            bps > 0,
            roots * 32 <= root_sectors * bps,
            roots >= 0,
    ;
    let reserved = number_at(boot, 14, 2) as int;
    let data_at = reserved + fats * fat_size + root_sectors;
    assert(data_at < total);
    assert(v.first_data_sector == data_at);
    assert(clusters == (total - data_at) / spc) by (nonlinear_arith)
        requires
            spc > 0,
            clusters * spc <= total - data_at < (clusters + 1) * spc,
    ;
}

proof fn lemma_two(s: Seq<u8>, at: int)
    requires
        0 <= at,
        at + 2 <= s.len(),
    ensures
        number_at(s, at, 2) == s[at] as int + 256 * s[at + 1],
{
    let t = s.subrange(at, at + 2);
    reveal_with_fuel(crate::bytes::le_value, 3);
    assert(t.drop_first().drop_first().len() == 0);
    assert(t.drop_first()[0] == s[at + 1]);
}

proof fn lemma_four(s: Seq<u8>, at: int)
    requires
        0 <= at,
        at + 4 <= s.len(),
    ensures
        number_at(s, at, 4) == s[at] as int + 256 * s[at + 1]
            + 65536 * s[at + 2] + 16777216 * s[at + 3],
{
    let t = s.subrange(at, at + 4);
    reveal_with_fuel(crate::bytes::le_value, 5);
    assert(t.drop_first().drop_first().drop_first().drop_first().len() == 0);
    assert(t.drop_first()[0] == s[at + 1]);
    assert(t.drop_first().drop_first()[0] == s[at + 2]);
    assert(t.drop_first().drop_first().drop_first()[0] == s[at + 3]);
}

/// The first cluster lies where the data begin, and clusters lie one behind the
/// other without gaps, so no two of them share a byte.
pub proof fn clusters_lie_one_behind_the_other(v: VfatVolume, c: u32, d: u32)
    requires
        v.wf(),
        v.first_data_sector > 0,
        2 <= c < d,
        v.cluster_at(d) is Some,
    ensures
        v.cluster_at(c) is Some,
        v.cluster_at(2) == Some(v.first_data_sector * v.bytes_per_sector),
        v.cluster_at(0) is None && v.cluster_at(1) is None,
        d == c + 1 ==> v.cluster_at(d)->0 == v.cluster_at(c)->0 + v.sectors_per_cluster
            * v.bytes_per_sector,
        v.cluster_at(c)->0 + v.sectors_per_cluster * v.bytes_per_sector <= v.cluster_at(d)->0,
{
    let spc = v.sectors_per_cluster as int;
    let bps = v.bytes_per_sector as int;
    let first = v.first_data_sector as int;
    let a = first + (c - 2) * spc;
    let b = first + (d - 2) * spc;
    assert(a + spc <= b && (d == c + 1 ==> a + spc == b)) by (nonlinear_arith)
        requires
            c < d,
            spc >= 1,
            a == first + (c - 2) * spc,
            b == first + (d - 2) * spc,
    ;
    assert((c - 2) * spc >= 0) by (nonlinear_arith)
        requires
            c >= 2,
            spc >= 1,
    ;
    assert((a + spc) * bps == a * bps + spc * bps) by (nonlinear_arith);
    assert((a + spc) * bps <= b * bps) by (nonlinear_arith)
        requires
            a + spc <= b,
            bps > 0,
    ;
    assert(a * bps <= b * bps && first * bps <= a * bps) by (nonlinear_arith)
        requires
            first <= a <= b,
            bps > 0,
    ;
    assert((2 - 2) * spc == 0) by (nonlinear_arith);
}

/// The bytes of clusters that the table chains up, in the order of the chain.
pub open spec fn strung(parts: Seq<Seq<u8>>) -> Seq<u8>
    decreases parts.len(),
{
    if parts.len() == 0 {
        Seq::empty()
    } else {
        parts[0] + strung(parts.drop_first())
    }
}

proof fn lemma_chain<D: RawBlockDevice>(
    v: VfatVolume,
    dev: &D,
    range: &BlockRange,
    chain: Seq<u32>,
    parts: Seq<Seq<u8>>,
    end: u32,
    seen: nat,
)
    requires
        chain.len() > 0,
        chain.len() == parts.len(),
        chain.len() + seen <= 1000000,
        end < 2 || end >= 0x0fff_fff8,
        forall|i: int| 0 <= i < chain.len() ==> 2 <= #[trigger] chain[i] < 0x0fff_fff8,
        forall|i: int|
            0 <= i < chain.len() ==> v.cluster_bytes(dev, range, #[trigger] chain[i]) == Ok::<
                Seq<u8>,
                SysErrNo,
            >(parts[i]),
        forall|i: int|
            0 <= i < chain.len() ==> v.cluster_after(dev, range, #[trigger] chain[i]) == Ok::<
                u32,
                SysErrNo,
            >(
                if i + 1 < chain.len() {
                    chain[i + 1]
                } else {
                    end
                },
            ),
    ensures
        v.chain_bytes(dev, range, chain[0], seen) == Ok::<Seq<u8>, SysErrNo>(strung(parts)),
    decreases chain.len(),
{
    let c = chain[0];
    assert(v.cluster_bytes(dev, range, c) == Ok::<Seq<u8>, SysErrNo>(parts[0]));
    if chain.len() == 1 {
        assert(v.cluster_after(dev, range, c) == Ok::<u32, SysErrNo>(end));
        assert(v.chain_bytes(dev, range, end, seen + 1) == Ok::<Seq<u8>, SysErrNo>(Seq::empty()));
        assert(parts.drop_first().len() == 0);
        assert(strung(parts.drop_first()) == Seq::<u8>::empty());
    } else {
        let rest = chain.drop_first();
        let others = parts.drop_first();
        assert forall|i: int| 0 <= i < rest.len() implies 2 <= #[trigger] rest[i] < 0x0fff_fff8 by {
            assert(rest[i] == chain[i + 1]);
        }
        assert forall|i: int| 0 <= i < rest.len() implies v.cluster_bytes(
            dev,
            range,
            #[trigger] rest[i],
        ) == Ok::<Seq<u8>, SysErrNo>(others[i]) by {
            assert(rest[i] == chain[i + 1]);
        }
        assert forall|i: int| 0 <= i < rest.len() implies v.cluster_after(
            dev,
            range,
            #[trigger] rest[i],
        ) == Ok::<u32, SysErrNo>(
            if i + 1 < rest.len() {
                rest[i + 1]
            } else {
                end
            },
        ) by {
            assert(rest[i] == chain[i + 1]);
        }
        lemma_chain(v, dev, range, rest, others, end, seen + 1);
        assert(v.cluster_after(dev, range, c) == Ok::<u32, SysErrNo>(chain[1]));
    }
}

/// A file whose clusters the table chains up holds their bytes in that order, as
/// many as its entry tells.
pub proof fn a_file_holds_its_chain<D: RawBlockDevice>(
    v: VfatVolume,
    dev: &D,
    range: &BlockRange,
    path: Seq<char>,
    e: FatEntry,
    chain: Seq<u32>,
    parts: Seq<Seq<u8>>,
    end: u32,
)
    requires
        v.found(dev, range, path) == Ok::<FatEntry, SysErrNo>(e),
        !e.is_dir,
        e.size > 0,
        0 < chain.len() <= 1000000,
        chain.len() == parts.len(),
        e.cluster == chain[0],
        end < 2 || end >= 0x0fff_fff8,
        forall|i: int| 0 <= i < chain.len() ==> 2 <= #[trigger] chain[i] < 0x0fff_fff8,
        forall|i: int|
            0 <= i < chain.len() ==> v.cluster_bytes(dev, range, #[trigger] chain[i]) == Ok::<
                Seq<u8>,
                SysErrNo,
            >(parts[i]),
        forall|i: int|
            0 <= i < chain.len() ==> v.cluster_after(dev, range, #[trigger] chain[i]) == Ok::<
                u32,
                SysErrNo,
            >(
                if i + 1 < chain.len() {
                    chain[i + 1]
                } else {
                    end
                },
            ),
    ensures
        v.held(dev, range, path) is Ok,
        ({
            let data = v.held(dev, range, path)->Ok_0;
            let all = strung(parts);
            &&& data.len() <= e.size
            &&& all.len() >= e.size ==> data.len() == e.size
            &&& all.len() < e.size ==> data == all
            &&& forall|i: int| 0 <= i < data.len() ==> #[trigger] data[i] == all[i]
        }),
{
    lemma_chain(v, dev, range, chain, parts, end, 0);
}

/// An entry of the table is the number of the next cluster, least significant
/// byte first, in two bytes or in four of which the top four bits do not count.
pub proof fn the_table_is_an_array<D: RawBlockDevice>(
    v: VfatVolume,
    dev: &D,
    range: &BlockRange,
    cluster: u32,
    next: u32,
    top: u32,
)
    requires
        next < 0x1000_0000,
        top < 16,
        v.fat_kind == FatKind::Fat16 ==> next < 0x1_0000 && range.bytes_at(
            dev,
            v.reserved_sectors * v.bytes_per_sector + cluster + cluster,
            2,
        ) == Ok::<Seq<u8>, SysErrNo>(le_bytes(next as nat, 2)),
        v.fat_kind == FatKind::Fat32 ==> range.bytes_at(
            dev,
            v.reserved_sectors * v.bytes_per_sector + cluster + cluster + cluster + cluster,
            4,
        ) == Ok::<Seq<u8>, SysErrNo>(le_bytes((next + top * 0x1000_0000) as nat, 4)),
    ensures
        v.cluster_after(dev, range, cluster) is Ok,
        v.fat_kind == FatKind::Fat32 || next < 0xfff8 ==> v.cluster_after(
            dev,
            range,
            cluster,
        )->Ok_0 == next,
        v.fat_kind == FatKind::Fat16 && next >= 0xfff8 ==> v.cluster_after(
            dev,
            range,
            cluster,
        )->Ok_0 >= 0x0fff_fff8,
{
    reveal_with_fuel(radix, 5);
    if v.fat_kind == FatKind::Fat16 {
        le_round_trip(next as nat, 2);
    } else {
        le_round_trip((next + top * 0x1000_0000) as nat, 4);
    }
}

/// A name is found as the first entry that has it but for the case of its
/// letters, and is missing only if there is none; how it is asked for does not
/// matter.
pub proof fn names_are_found_in_any_case(entries: Seq<FatEntry>, name: Seq<char>, other: Seq<char>)
    requires
        small(name) == small(other),
    ensures
        first_named(entries, name) == first_named(entries, other),
        first_named(entries, name) is None <==> forall|i: int|
            0 <= i < entries.len() ==> small((#[trigger] entries[i]).name) != small(name),
        first_named(entries, name) is Some ==> exists|i: int|
            0 <= i < entries.len() && #[trigger] entries[i] == first_named(entries, name)->0
                && small(entries[i].name) == small(name) && forall|j: int|
                0 <= j < i ==> small((#[trigger] entries[j]).name) != small(name),
    decreases entries.len(),
{
    if entries.len() > 0 {
        let rest = entries.drop_first();
        names_are_found_in_any_case(rest, name, other);
        if small(entries[0].name) == small(name) {
            assert(entries[0] == first_named(entries, name)->0);
        } else {
            assert forall|i: int| 0 < i < entries.len() implies entries[i] == rest[i - 1] by {}
            if first_named(entries, name) is None {
                assert forall|i: int| 0 <= i < entries.len() implies small(
                    (#[trigger] entries[i]).name,
                ) != small(name) by {
                    if i > 0 {
                        assert(small(rest[i - 1].name) != small(name));
                    }
                }
            } else {
                let k = choose|k: int|
                    0 <= k < rest.len() && #[trigger] rest[k] == first_named(rest, name)->0
                        && small(rest[k].name) == small(name) && forall|j: int|
                        0 <= j < k ==> small((#[trigger] rest[j]).name) != small(name);
                assert(entries[k + 1] == rest[k]);
                assert forall|j: int| 0 <= j < k + 1 implies small((#[trigger] entries[j]).name)
                    != small(name) by {
                    if j > 0 {
                        assert(small(rest[j - 1].name) != small(name));
                    }
                }
            }
        }
    }
}

/// A path is followed name by name: what its last name leads to is looked up in
/// the directory that the names before lead to, and nothing lies in a file.
pub proof fn a_path_is_followed_name_by_name<D: RawBlockDevice>(
    v: VfatVolume,
    dev: &D,
    range: &BlockRange,
    entries: Seq<FatEntry>,
    names: Seq<Seq<char>>,
    last: Seq<char>,
)
    requires
        names.len() > 0,
    ensures
        v.found_from(dev, range, entries, names.push(last)) == (match v.found_from(
            dev,
            range,
            entries,
            names,
        ) {
            Err(e) => Err::<FatEntry, SysErrNo>(e),
            Ok(d) => if !d.is_dir {
                Err(SysErrNo::ENOTDIR)
            } else if d.cluster < 2 {
                Err(SysErrNo::ENOENT)
            } else {
                match v.chain_bytes(dev, range, d.cluster, 0) {
                    Err(e) => Err(e),
                    Ok(bytes) => match first_named(dir_listing(bytes), last) {
                        None => Err(SysErrNo::ENOENT),
                        Some(e) => Ok(e),
                    },
                }
            },
        }),
    decreases names.len(),
{
    let all = names.push(last);
    assert(all[0] == names[0]);
    assert(all.drop_first() =~= names.drop_first().push(last));
    match first_named(entries, names[0]) {
        None => {},
        Some(d) => {
            if d.is_dir {
                let inner = v.entries_in(dev, range, d);
                if names.len() == 1 {
                    assert(all.drop_first() =~= seq![last]);
                    if inner is Ok {
                        let found = first_named(inner->Ok_0, last);
                        assert(v.found_from(dev, range, inner->Ok_0, seq![last]) == (match found {
                            None => Err::<FatEntry, SysErrNo>(SysErrNo::ENOENT),
                            Some(e) => Ok(e),
                        }));
                    }
                } else if inner is Ok {
                    a_path_is_followed_name_by_name(
                        v,
                        dev,
                        range,
                        inner->Ok_0,
                        names.drop_first(),
                        last,
                    );
                }
            }
        },
    }
}

/// A directory is read record by record up to the first that begins with a zero:
/// what stands behind whole records that do not is read as it would be alone, and
/// what stands behind such a zero is not read.
pub proof fn a_directory_is_read_record_by_record(first: Seq<u8>, rest: Seq<u8>)
    requires
        first.len() == 32,
    ensures
        first[0] == 0 ==> dir_listing(first + rest) == Seq::<FatEntry>::empty(),
        first[0] != 0 ==> dir_listing(first + rest) == dir_listing(first) + dir_listing(rest),
        first[0] == 0xe5 ==> dir_listing(first) == Seq::<FatEntry>::empty(),
        first[11] == 0x0f || first[11] & 0x08 != 0 ==> dir_listing(first)
            == Seq::<FatEntry>::empty(),
        dir_listing(first).len() <= 1,
{
    let all = first + rest;
    assert(all.take(32) =~= first);
    assert(first.take(32) =~= first);
    assert(all.skip(32) =~= rest);
    assert(first.skip(32) =~= Seq::<u8>::empty());
    assert(dir_listing(first.skip(32)) == Seq::<FatEntry>::empty());
    assert(dir_listing(first) =~= (if first[0] == 0 {
        Seq::empty()
    } else {
        match entry_of(first) {
            Some(e) => seq![e],
            None => Seq::empty(),
        }
    }));
}

/// A record tells the size of its file in its last four bytes and the first
/// cluster in two pairs of bytes, and bits of its attributes whether it is a
/// directory and may be written.
pub proof fn a_record_is_read_by_its_fields(raw: Seq<u8>, e: FatEntry)
    requires
        raw.len() == 32,
        entry_of(raw) == Some(e),
    ensures
        e.size == raw[28] as int + 256 * raw[29] + 65536 * raw[30] + 16777216 * raw[31],
        e.cluster == raw[26] as int + 256 * raw[27] + 65536 * raw[20] + 16777216 * raw[21],
        e.is_dir <==> raw[11] & 0x10 != 0,
        e.readonly <==> raw[11] & 0x01 != 0,
        e.name.len() > 0,
        small(e.name) == e.name,
{
    lemma_two(raw, 20);
    lemma_two(raw, 26);
    lemma_four(raw, 28);
    let base = crate::fs::vfat::trimmed_end(vstd::utf8::decode_utf8(raw.subrange(0, 8)));
    let ext = crate::fs::vfat::trimmed_end(vstd::utf8::decode_utf8(raw.subrange(8, 11)));
    assert(small(small(base)) =~= small(base));
    assert(small(small(base + "."@ + ext)) =~= small(base + "."@ + ext));
}

/// A directory is listed in the order of its records, without the two that every
/// directory has.
pub proof fn listed_are_all_but_the_dots(entries: Seq<FatEntry>, e: FatEntry)
    ensures
        listed_entries(entries.push(e)) == (if e.name == "."@ || e.name == ".."@ {
            listed_entries(entries)
        } else {
            listed_entries(entries).push(DirEntryModel { name: e.name, is_dir: e.is_dir })
        }),
        listed_entries(Seq::<FatEntry>::empty()) == Seq::<DirEntryModel>::empty(),
{
    assert(entries.push(e).drop_last() =~= entries);
}

} // verus!
