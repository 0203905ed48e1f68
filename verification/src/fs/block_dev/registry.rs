//! The block devices of the machine: the disk, its partitions and the loop
//! devices.
use vstd::prelude::*;

use crate::bytes::{le_value, read_le, zero_bytes};
use crate::errno::SysErrNo;
use crate::fs::block_dev::device::{BlockRange, RawBlockDevice, SECTOR_SIZE};
use crate::fs::block_dev::partitions::{parse_mbr_partitions, partitions, PartitionInfo};
use crate::text::{concat, decimal, decimal_text, str_eq, strip_prefix, texts, to_chars};

verus! {

/// The major number of the disk and its partitions.
pub const DEV_VIRTIO_BLK_MAJOR: u32 = 254;

/// The major number of loop devices.
pub const DEV_LOOP_MAJOR: u32 = 7;

/// The major number of the loop control device.
pub const DEV_LOOP_CONTROL_MAJOR: u32 = 10;

/// The minor number of the loop control device.
pub const DEV_LOOP_CONTROL_MINOR: u32 = 237;

/// How many loop devices there are.
pub const LOOP_DEVICE_COUNT: usize = 4;

/// A device with a path.
pub struct RegisteredBlockDevice {
    pub path: String,
    pub major: u32,
    pub minor: u32,
    pub range: BlockRange,
}

/// What a loop device shows: a file in memory or one of the volume.
pub enum LoopBacking {
    MemFile { path: String },
    Ext4Regular { ino: u32 },
}

/// A loop device.
pub struct LoopDeviceState {
    pub backing: Option<LoopBacking>,
    pub offset: usize,
}

/// All block devices.
pub struct BlockDevices {
    pub devices: Vec<RegisteredBlockDevice>,
    pub root_source: String,
    pub loops: Vec<LoopDeviceState>,
}

/// Whether a part of a device starts like an ext4 volume.
pub open spec fn holds_ext4<D: RawBlockDevice>(dev: &D, range: &BlockRange) -> bool {
    match range.bytes_at(dev, 0x438, 2) {
        Ok(magic) => le_value(magic) == 0xef53,
        Err(_) => false,
    }
}

fn ext4_magic<D: RawBlockDevice>(dev: &D, range: &BlockRange) -> (r: bool)
    ensures
        r == holds_ext4(dev, range),
{
    let mut magic = zero_bytes(2);
    match range.read_at(dev, 0x438, magic.as_mut_slice()) {
        Ok(_) => {
            assert(magic@.subrange(0, 2) =~= magic@);
            read_le(magic.as_slice(), 0, 2) == 0xef53
        },
        Err(_) => false,
    }
}

/// Whether the machine can count the bytes of a partition and those in front of
/// it.
pub open spec fn countable(part: PartitionInfo) -> bool {
    part.start_lba as usize * 512 <= usize::MAX && part.sectors as usize * 512 <= usize::MAX
}

/// The partitions that the machine can count, in order.
pub open spec fn countable_parts(parts: Seq<PartitionInfo>) -> Seq<PartitionInfo>
    decreases parts.len(),
{
    if parts.len() == 0 {
        Seq::empty()
    } else if countable(parts.last()) {
        countable_parts(parts.drop_last()).push(parts.last())
    } else {
        countable_parts(parts.drop_last())
    }
}

/// Whether a device is the one of a partition.
pub open spec fn is_device_of(d: RegisteredBlockDevice, part: PartitionInfo) -> bool {
    &&& d.path@ == "/dev/vda"@ + decimal(part.index as nat)
    &&& d.major == DEV_VIRTIO_BLK_MAJOR
    &&& d.minor == part.index
    &&& d.range.start == part.start_lba as usize * 512
    &&& d.range.len == Some((part.sectors as usize * 512) as usize)
    &&& d.range.wf()
}

/// Whether a device is the one of the whole disk.
pub open spec fn is_whole_disk(d: RegisteredBlockDevice, size: Option<usize>) -> bool {
    &&& d.path@ == "/dev/vda"@
    &&& d.major == DEV_VIRTIO_BLK_MAJOR
    &&& d.minor == 0
    &&& d.range.start == 0
    &&& d.range.len == size
    &&& d.range.wf()
}

/// Whether the root is on a device: on the whole disk if that is an ext4 volume
/// or nothing is, and else on the first partition that is one.
pub open spec fn is_root_of<D: RawBlockDevice>(
    dev: &D,
    devices: Seq<RegisteredBlockDevice>,
    root: int,
) -> bool {
    &&& 0 <= root < devices.len()
    &&& root > 0 ==> !holds_ext4(dev, &devices[0].range) && holds_ext4(dev, &devices[root].range)
    &&& root == 0 && !holds_ext4(dev, &devices[0].range) ==> forall|j: int|
        0 < j < devices.len() ==> !holds_ext4(dev, &(#[trigger] devices[j]).range)
    &&& forall|j: int| 0 < j < root ==> !holds_ext4(dev, &(#[trigger] devices[j]).range)
}

impl BlockDevices {
    /// There are as many loop devices as there should be.
    pub open spec fn wf(&self) -> bool {
        &&& self.loops@.len() == LOOP_DEVICE_COUNT
        &&& forall|i: int|
            0 <= i < self.devices@.len() ==> (#[trigger] self.devices@[i]).range.wf()
    }

    /// No device is registered and no loop device shows anything.
    pub open spec fn is_blank(&self) -> bool {
        &&& self.devices@.len() == 0
        &&& self.root_source@ == "/dev/vda"@
        &&& forall|i: int|
            0 <= i < LOOP_DEVICE_COUNT ==> (#[trigger] self.loops@[i]).backing is None
                && self.loops@[i].offset == 0
    }

    /// No devices but loop devices that show nothing.
    pub fn new() -> (r: Self)
        ensures
            r.wf(),
            r.is_blank(),
    {
        let mut loops: Vec<LoopDeviceState> = Vec::new();
        while loops.len() < LOOP_DEVICE_COUNT
            invariant
                loops@.len() <= LOOP_DEVICE_COUNT,
                forall|i: int|
                    0 <= i < loops@.len() ==> (#[trigger] loops@[i]).backing is None
                        && loops@[i].offset == 0,
            decreases LOOP_DEVICE_COUNT - loops@.len(),
        {
            loops.push(LoopDeviceState { backing: None, offset: 0 });
        }
        BlockDevices { devices: Vec::new(), root_source: "/dev/vda".to_owned(), loops }
    }

    /// Registers the disk and its partitions; the result is which of the devices
    /// holds the root.
    pub fn register_virtio_disk<D: RawBlockDevice>(&mut self, dev: &D) -> (root: usize)
        requires
            old(self).wf(),
        ensures
            final(self).wf(),
            final(self).loops == old(self).loops,
            ({
                let parts = countable_parts(partitions(dev));
                &&& final(self).devices@.len() == parts.len() + 1
                &&& is_whole_disk(final(self).devices@[0], dev.told_size())
                &&& forall|j: int|
                    0 < j < final(self).devices@.len() ==> is_device_of(
                        #[trigger] final(self).devices@[j],
                        parts[j - 1],
                    )
                &&& is_root_of(dev, final(self).devices@, root as int)
                &&& final(self).root_source@ == final(self).devices@[root as int].path@
            }),
    {
        let mut devices: Vec<RegisteredBlockDevice> = Vec::new();
        let whole = BlockRange::new(0, dev.size_bytes());
        let whole_ext4 = ext4_magic(dev, &whole);
        devices.push(
            RegisteredBlockDevice {
                path: "/dev/vda".to_owned(),
                major: DEV_VIRTIO_BLK_MAJOR,
                minor: 0,
                range: whole,
            },
        );
        let mut root: usize = 0;
        let parts = parse_mbr_partitions(dev);
        let ghost all = parts@;
        let mut i: usize = 0;
        assert(all.take(0) =~= Seq::empty());
        while i < parts.len()
            invariant
                all == parts@,
                0 <= i <= parts@.len(),
                devices@.len() == countable_parts(all.take(i as int)).len() + 1,
                is_whole_disk(devices@[0], dev.told_size()),
                whole_ext4 == holds_ext4(dev, &devices@[0].range),
                forall|j: int|
                    0 < j < devices@.len() ==> is_device_of(
                        #[trigger] devices@[j],
                        countable_parts(all.take(i as int))[j - 1],
                    ),
                is_root_of(dev, devices@, root as int),
            decreases parts@.len() - i,
        {
            let part = parts[i];
            let start: usize = part.start_lba as usize;
            let sectors: usize = part.sectors as usize;
            proof {
                assert(all.take(i + 1).drop_last() =~= all.take(i as int));
                assert(all.take(i + 1).last() == part);
            }
            if start <= usize::MAX / SECTOR_SIZE && sectors <= usize::MAX / SECTOR_SIZE {
                let range = BlockRange::new(start * SECTOR_SIZE, Some(sectors * SECTOR_SIZE));
                let number = decimal_text(part.index as usize);
                let path = concat("/dev/vda", number.as_str());
                let ghost before = devices@;
                let ghost had = root as int;
                let here = ext4_magic(dev, &range);
                if root == 0 && !whole_ext4 && here {
                    root = devices.len();
                }
                devices.push(
                    RegisteredBlockDevice {
                        path,
                        major: DEV_VIRTIO_BLK_MAJOR,
                        minor: part.index,
                        range,
                    },
                );
                proof {
                    let old_parts = countable_parts(all.take(i as int));
                    let now_parts = countable_parts(all.take(i + 1));
                    assert(now_parts =~= old_parts.push(part));
                    assert forall|j: int| 0 < j < devices@.len() implies is_device_of(
                        #[trigger] devices@[j],
                        now_parts[j - 1],
                    ) by {
                        if j < before.len() {
                            assert(devices@[j] == before[j]);
                            assert(now_parts[j - 1] == old_parts[j - 1]);
                        }
                    }
                    assert(devices@[0] == before[0]);
                    assert forall|j: int| 0 < j < before.len() implies devices@[j]
                        == #[trigger] before[j] by {}
                    assert(is_root_of(dev, devices@, root as int)) by {
                        if had > 0 {
                            assert(devices@[had] == before[had]);
                        }
                        assert forall|j: int| 0 < j < root implies !holds_ext4(
                            dev,
                            &(#[trigger] devices@[j]).range,
                        ) by {
                            assert(devices@[j] == before[j]);
                        }
                        if root == 0 && !whole_ext4 {
                            assert forall|j: int| 0 < j < devices@.len() implies !holds_ext4(
                                dev,
                                &(#[trigger] devices@[j]).range,
                            ) by {
                                if j < before.len() {
                                    assert(devices@[j] == before[j]);
                                }
                            }
                        }
                    }
                }
            }
            i = i + 1;
        }
        assert(all.take(i as int) =~= all);
        self.root_source = devices[root].path.clone();
        self.devices = devices;
        assert forall|j: int| 0 <= j < self.devices@.len() implies (
        #[trigger] self.devices@[j]).range.wf() by {
            if j > 0 {
                assert(is_device_of(self.devices@[j], countable_parts(all)[j - 1]));
            }
        }
        root
    }

    /// Which device has a path, if any: the first.
    pub open spec fn device_at(&self, path: Seq<char>) -> Option<int> {
        if exists|i: int| self.is_first_at(path, i) {
            Some(choose|i: int| self.is_first_at(path, i))
        } else {
            None
        }
    }

    /// Whether a device is the first with a path.
    pub open spec fn is_first_at(&self, path: Seq<char>, i: int) -> bool {
        &&& 0 <= i < self.devices@.len()
        &&& self.devices@[i].path@ == path
        &&& forall|j: int| 0 <= j < i ==> (#[trigger] self.devices@[j]).path@ != path
    }

    /// Which device has a path, if any: the first.
    pub fn range_for_path(&self, path: &str) -> (r: Option<usize>)
        ensures
            match r {
                Some(i) => self.device_at(path@) == Some(i as int) && i < self.devices@.len()
                    && self.devices@[i as int].path@ == path@,
                None => self.device_at(path@) is None,
            },
    {
        let mut i: usize = 0;
        while i < self.devices.len()
            invariant
                0 <= i <= self.devices@.len(),
                forall|j: int| 0 <= j < i ==> (#[trigger] self.devices@[j]).path@ != path@,
            decreases self.devices@.len() - i,
        {
            if str_eq(self.devices[i].path.as_str(), path) {
                proof {
                    assert(self.is_first_at(path@, i as int));
                    let c = choose|c: int| self.is_first_at(path@, c);
                    if c < i {
                        assert(self.devices@[c].path@ != path@);
                    } else if i < c {
                        assert(self.devices@[i as int].path@ != path@);
                    }
                }
                return Some(i);
            }
            i = i + 1;
        }
        None
    }

    /// The numbers of the device that a path names.
    pub open spec fn numbers_spec(&self, path: Seq<char>) -> Option<(u32, u32)> {
        if path == "/dev/loop-control"@ {
            Some((DEV_LOOP_CONTROL_MAJOR, DEV_LOOP_CONTROL_MINOR))
        } else {
            match loop_index(path) {
                Some(index) => Some((DEV_LOOP_MAJOR, index as u32)),
                None => match self.device_at(path) {
                    Some(i) => Some((self.devices@[i].major, self.devices@[i].minor)),
                    None => None,
                },
            }
        }
    }

    /// The numbers of the device that a path names.
    pub fn device_numbers_for_path(&self, path: &str) -> (r: Option<(u32, u32)>)
        ensures
            r == self.numbers_spec(path@),
    {
        if loop_control_path(path) {
            return Some((DEV_LOOP_CONTROL_MAJOR, DEV_LOOP_CONTROL_MINOR));
        }
        match loop_index_for_path(path) {
            Some(index) => {
                return Some((DEV_LOOP_MAJOR, index as u32));
            },
            None => {},
        }
        match self.range_for_path(path) {
            Some(i) => Some((self.devices[i].major, self.devices[i].minor)),
            None => None,
        }
    }

    /// The minor number of the device that a path names.
    pub fn minor_for_path(&self, path: &str) -> (r: Option<u32>)
        ensures
            r == (match self.numbers_spec(path@) {
                Some((_, minor)) => Some(minor),
                None => None,
            }),
    {
        match self.device_numbers_for_path(path) {
            Some((_major, minor)) => Some(minor),
            None => None,
        }
    }

    /// Whether a path names a disk, a partition or a loop device.
    pub fn block_device_available(&self, path: &str) -> (r: bool)
        ensures
            r == (self.device_at(path@) is Some || loop_index(path@) is Some),
    {
        if self.range_for_path(path).is_some() {
            return true;
        }
        loop_index_for_path(path).is_some()
    }

    /// Whether the root is on the device that a path names.
    pub fn is_root_source(&self, path: &str) -> (r: bool)
        ensures
            r == (self.root_source@ == path@),
    {
        str_eq(self.root_source.as_str(), path)
    }

    /// The path of the device that holds the root.
    pub fn root_source_path(&self) -> (r: String)
        ensures
            r@ == self.root_source@,
    {
        self.root_source.clone()
    }

    /// The numbers of the device that holds the root.
    pub fn root_device_numbers(&self) -> (r: Option<(u32, u32)>)
        ensures
            r == self.numbers_spec(self.root_source@),
    {
        let path = self.root_source_path();
        self.device_numbers_for_path(path.as_str())
    }

    /// The blocks of the root device at some offsets.
    pub fn read_root_blocks<D: RawBlockDevice>(&mut self, dev: &D, offsets: &[usize]) -> (r: Result<
        Vec<Vec<u8>>,
        SysErrNo,
    >)
        requires
            old(self).wf(),
        ensures
            final(self).wf(),
            final(self).loops == old(self).loops,
            final(self).root_source == old(self).root_source,
            match old(self).device_at(old(self).root_source@) {
                None => r == Err::<Vec<Vec<u8>>, SysErrNo>(SysErrNo::ENODEV)
                    && final(self).devices@ == old(self).devices@,
                Some(d) => {
                    let was = old(self).devices@[d];
                    let now = final(self).devices@[d];
                    &&& now.range.blocks_read(&was.range, dev, offsets@, r)
                    &&& final(self).devices@ == old(self).devices@.update(
                        d,
                        (RegisteredBlockDevice { range: now.range, ..was }),
                    )
                },
            },
    {
        let path = self.root_source_path();
        let d: usize = match self.range_for_path(path.as_str()) {
            Some(d) => d,
            None => {
                return Err(SysErrNo::ENODEV);
            },
        };
        let ghost before = self.devices@;
        assert(before[d as int].range.wf());
        let mut entry = self.devices.remove(d);
        let r = entry.range.read_cached_blocks(dev, offsets);
        self.devices.insert(d, entry);
        assert(self.devices@ =~= before.update(d as int, entry));
        r
    }

    /// The paths of all devices.
    pub open spec fn listed_paths(&self) -> Seq<Seq<char>> {
        Seq::new(self.devices@.len(), |i: int| self.devices@[i].path@).push("/dev/loop-control"@)
            + loop_paths(LOOP_DEVICE_COUNT as nat)
    }

    /// The paths of all devices.
    pub fn list_device_paths(&self) -> (r: Vec<String>)
        ensures
            texts(r@) == self.listed_paths(),
    {
        let mut paths: Vec<String> = Vec::new();
        let ghost known = Seq::new(self.devices@.len(), |i: int| self.devices@[i].path@);
        let mut i: usize = 0;
        assert(texts(paths@) =~= known.take(0));
        while i < self.devices.len()
            invariant
                0 <= i <= self.devices@.len(),
                known == Seq::new(self.devices@.len(), |i: int| self.devices@[i].path@),
                texts(paths@) == known.take(i as int),
            decreases self.devices@.len() - i,
        {
            let ghost before = texts(paths@);
            paths.push(self.devices[i].path.clone());
            assert(texts(paths@) =~= before.push(known[i as int]));
            assert(known.take(i + 1) =~= before.push(known[i as int]));
            i = i + 1;
        }
        assert(known.take(i as int) =~= known);
        paths.push("/dev/loop-control".to_owned());
        let ghost head = known.push("/dev/loop-control"@);
        assert(texts(paths@) =~= head);
        let mut k: usize = 0;
        assert(head + loop_paths(0) =~= head);
        while k < LOOP_DEVICE_COUNT
            invariant
                0 <= k <= LOOP_DEVICE_COUNT,
                texts(paths@) == head + loop_paths(k as nat),
            decreases LOOP_DEVICE_COUNT - k,
        {
            let ghost before = texts(paths@);
            paths.push(loop_device_path(k));
            paths.push(loop_device_alt_path(k));
            paths.push(loop_device_block_path(k));
            proof {
                let three = seq![
                    "/dev/loop"@ + decimal(k as nat),
                    "/dev/loop/"@ + decimal(k as nat),
                    "/dev/block/loop"@ + decimal(k as nat),
                ];
                assert(texts(paths@) =~= before + three);
                assert(loop_paths((k + 1) as nat) == loop_paths(k as nat) + three);
                assert(texts(paths@) =~= head + loop_paths((k + 1) as nat));
            }
            k = k + 1;
        }
        paths
    }
}

/// The paths of the first `n` loop devices.
pub open spec fn loop_paths(n: nat) -> Seq<Seq<char>>
    decreases n,
{
    if n == 0 {
        Seq::empty()
    } else {
        let i = (n - 1) as nat;
        loop_paths(i) + seq![
            "/dev/loop"@ + decimal(i),
            "/dev/loop/"@ + decimal(i),
            "/dev/block/loop"@ + decimal(i),
        ]
    }
}

/// Whether a path names the loop control device.
pub fn loop_control_path(path: &str) -> (r: bool)
    ensures
        r == (path@ == "/dev/loop-control"@),
{
    str_eq(path, "/dev/loop-control")
}

/// The path of a loop device.
pub fn loop_device_path(index: usize) -> (r: String)
    ensures
        r@ == "/dev/loop"@ + decimal(index as nat),
{
    concat("/dev/loop", decimal_text(index).as_str())
}

/// Another path of a loop device.
pub fn loop_device_alt_path(index: usize) -> (r: String)
    ensures
        r@ == "/dev/loop/"@ + decimal(index as nat),
{
    concat("/dev/loop/", decimal_text(index).as_str())
}

/// A third path of a loop device.
pub fn loop_device_block_path(index: usize) -> (r: String)
    ensures
        r@ == "/dev/block/loop"@ + decimal(index as nat),
{
    concat("/dev/block/loop", decimal_text(index).as_str())
}

/// Whether a character is a decimal digit.
pub open spec fn is_digit(c: char) -> bool {
    '0' <= c <= '9'
}

/// Whether a text has only digits.
pub open spec fn all_digits(s: Seq<char>) -> bool {
    forall|i: int| 0 <= i < s.len() ==> is_digit(#[trigger] s[i])
}

/// The number that digits stand for.
pub open spec fn digits_value(s: Seq<char>) -> nat
    decreases s.len(),
{
    if s.len() == 0 {
        0
    } else {
        (digits_value(s.drop_last()) * 10 + (s.last() as int - 48)) as nat
    }
}

/// The number of a loop device that a text stands for: digits, behind one plus
/// sign if there is one.
pub open spec fn index_of_text(s: Seq<char>) -> Option<nat> {
    let digits = if s.len() > 1 && s[0] == '+' {
        s.skip(1)
    } else {
        s
    };
    if digits.len() == 0 || !all_digits(digits) || digits_value(digits) >= LOOP_DEVICE_COUNT {
        None
    } else {
        Some(digits_value(digits))
    }
}

/// The text behind a prefix, if it is there.
pub open spec fn behind_prefix(s: Seq<char>, prefix: Seq<char>) -> Option<Seq<char>> {
    if s.len() >= prefix.len() && s.take(prefix.len() as int) == prefix {
        Some(s.skip(prefix.len() as int))
    } else {
        None
    }
}

/// The number of the loop device that a path names.
pub open spec fn loop_index(path: Seq<char>) -> Option<nat> {
    let plain = behind_prefix(path, "/dev/loop"@);
    if plain is Some && plain->0.len() > 0 && all_digits(plain->0) {
        index_of_text(plain->0)
    } else {
        match behind_prefix(path, "/dev/loop/"@) {
            Some(tail) => index_of_text(tail),
            None => match behind_prefix(path, "/dev/block/loop"@) {
                Some(tail) => index_of_text(tail),
                None => None,
            },
        }
    }
}

fn only_digits(chars: &Vec<char>, from: usize) -> (r: bool)
    requires
        from <= chars@.len(),
    ensures
        r == all_digits(chars@.skip(from as int)),
{
    let mut i: usize = from;
    while i < chars.len()
        invariant
            from <= i <= chars@.len(),
            forall|j: int| from <= j < i ==> is_digit(#[trigger] chars@[j]),
        decreases chars@.len() - i,
    {
        if !(chars[i] >= '0' && chars[i] <= '9') {
            assert(!is_digit(chars@.skip(from as int)[i - from]));
            return false;
        }
        i = i + 1;
    }
    assert forall|j: int| 0 <= j < chars@.skip(from as int).len() implies is_digit(
        #[trigger] chars@.skip(from as int)[j],
    ) by {
        assert(is_digit(chars@[j + from]));
    }
    true
}

fn parse_index(text: &str) -> (r: Option<usize>)
    ensures
        match r {
            Some(i) => index_of_text(text@) == Some(i as nat) && i < LOOP_DEVICE_COUNT,
            None => index_of_text(text@) is None,
        },
{
    let chars = to_chars(text);
    let from: usize = if chars.len() > 1 && chars[0] == '+' {
        1
    } else {
        0
    };
    let ghost digits = chars@.skip(from as int);
    assert(chars@.skip(0) =~= chars@);
    if chars.len() == from || !only_digits(&chars, from) {
        return None;
    }
    let mut n: usize = 0;
    let mut i: usize = from;
    let mut large = false;
    assert(digits.take(0) =~= Seq::empty());
    while i < chars.len()
        invariant
            from <= i <= chars@.len(),
            digits == chars@.skip(from as int),
            all_digits(digits),
            large ==> digits_value(digits.take(i - from)) >= LOOP_DEVICE_COUNT,
            !large ==> digits_value(digits.take(i - from)) == n && n < LOOP_DEVICE_COUNT,
        decreases chars@.len() - i,
    {
        let ghost now = digits.take(i + 1 - from);
        proof {
            assert(now.drop_last() =~= digits.take(i - from));
            assert(now.last() == chars@[i as int]);
            assert(is_digit(digits[i - from]));
        }
        let d: usize = (chars[i] as u32 - 48) as usize;
        if !large {
            n = n * 10 + d;
            if n >= LOOP_DEVICE_COUNT {
                large = true;
            }
        }
        i = i + 1;
    }
    assert(digits.take(i - from) =~= digits);
    if large {
        None
    } else {
        Some(n)
    }
}

fn tail_behind(path: &str, prefix: &str) -> (r: Option<String>)
    ensures
        match r {
            Some(tail) => behind_prefix(path@, prefix@) == Some(tail@),
            None => behind_prefix(path@, prefix@) is None,
        },
{
    strip_prefix(path, prefix)
}

/// The number of the loop device that a path names.
pub fn loop_index_for_path(path: &str) -> (r: Option<usize>)
    ensures
        match r {
            Some(i) => loop_index(path@) == Some(i as nat) && i < LOOP_DEVICE_COUNT,
            None => loop_index(path@) is None,
        },
{
    match tail_behind(path, "/dev/loop") {
        Some(tail) => {
            let chars = to_chars(tail.as_str());
            assert(chars@.skip(0) =~= chars@);
            if chars.len() > 0 && only_digits(&chars, 0) {
                return parse_index(tail.as_str());
            }
        },
        None => {},
    }
    match tail_behind(path, "/dev/loop/") {
        Some(tail) => {
            return parse_index(tail.as_str());
        },
        None => {},
    }
    match tail_behind(path, "/dev/block/loop") {
        Some(tail) => parse_index(tail.as_str()),
        None => None,
    }
}

impl BlockDevices {
    /// The first loop device that shows nothing.
    pub fn first_free_loop(&self) -> (r: Option<usize>)
        ensures
            match r {
                Some(i) => i < self.loops@.len() && self.loops@[i as int].backing is None
                    && forall|j: int|
                    0 <= j < i ==> (#[trigger] self.loops@[j]).backing is Some,
                None => forall|j: int|
                    0 <= j < self.loops@.len() ==> (#[trigger] self.loops@[j]).backing is Some,
            },
    {
        let mut i: usize = 0;
        while i < self.loops.len()
            invariant
                0 <= i <= self.loops@.len(),
                forall|j: int| 0 <= j < i ==> (#[trigger] self.loops@[j]).backing is Some,
            decreases self.loops@.len() - i,
        {
            if self.loops[i].backing.is_none() {
                return Some(i);
            }
            i = i + 1;
        }
        None
    }

    /// Whether a loop device shows something.
    pub fn loop_is_attached(&self, index: usize) -> (r: Result<bool, SysErrNo>)
        ensures
            r == (if index < self.loops@.len() {
                Ok::<bool, SysErrNo>(self.loops@[index as int].backing is Some)
            } else {
                Err(SysErrNo::ENODEV)
            }),
    {
        if index >= self.loops.len() {
            return Err(SysErrNo::ENODEV);
        }
        Ok(self.loops[index].backing.is_some())
    }

    /// What a loop device shows.
    pub open spec fn shown(&self, index: usize) -> Result<LoopBacking, SysErrNo> {
        if index >= self.loops@.len() {
            Err(SysErrNo::ENODEV)
        } else {
            match self.loops@[index as int].backing {
                None => Err(SysErrNo::ENXIO),
                Some(backing) => Ok(backing),
            }
        }
    }

    /// What a loop device shows.
    pub fn loop_backing(&self, index: usize) -> (r: Result<&LoopBacking, SysErrNo>)
        ensures
            match r {
                Ok(backing) => self.shown(index) == Ok::<LoopBacking, SysErrNo>(*backing),
                Err(e) => self.shown(index) == Err::<LoopBacking, SysErrNo>(e),
            },
    {
        if index >= self.loops.len() {
            return Err(SysErrNo::ENODEV);
        }
        match &self.loops[index].backing {
            None => Err(SysErrNo::ENXIO),
            Some(backing) => Ok(backing),
        }
    }
}

} // verus!
