use wll_os::errno::SysErrNo;
use wll_os::fs::block_dev::device::{BlockCache, BlockRange, RamDisk, RawBlockDevice};
use wll_os::fs::block_dev::partitions::{parse_gpt_partitions, parse_mbr_partitions};
use wll_os::fs::block_dev::registry::{
    loop_control_path, loop_device_alt_path, loop_device_block_path, loop_device_path,
    loop_index_for_path, BlockDevices, LoopBacking,
};
use wll_os::fs::ext4::mount::Ext4Volume;
use wll_os::fs::memfs::store::MemFileSystem;
use wll_os::fs::vfat::{short_name, FatKind, VfatVolume};
use wll_os::task::{Caller, Credentials, Timestamp};

fn caller() -> Caller {
    Caller { cred: Credentials::root(), now: Timestamp { sec: 100, nsec: 5 } }
}

fn put(bytes: &mut [u8], at: usize, data: &[u8]) {
    bytes[at..at + data.len()].copy_from_slice(data);
}

fn part_entry(disk: &mut [u8], i: usize, kind: u8, start: u32, sectors: u32) {
    disk[510] = 0x55;
    disk[511] = 0xaa;
    let base = 446 + 16 * i;
    disk[base + 4] = kind;
    put(disk, base + 8, &start.to_le_bytes());
    put(disk, base + 12, &sectors.to_le_bytes());
}

fn fat16() -> Vec<u8> {
    // One reserved sector, one table of 17 sectors, a root of 16 entries and
    // 4100 clusters of one sector.
    let total: u32 = 1 + 17 + 1 + 4100;
    let mut disk = vec![0u8; total as usize * 512];
    disk[510] = 0x55;
    disk[511] = 0xaa;
    put(&mut disk, 11, &512u16.to_le_bytes());
    disk[13] = 1;
    put(&mut disk, 14, &1u16.to_le_bytes());
    disk[16] = 1;
    put(&mut disk, 17, &16u16.to_le_bytes());
    put(&mut disk, 19, &(total as u16).to_le_bytes());
    put(&mut disk, 22, &17u16.to_le_bytes());
    // README.TXT: clusters 2 and 4, 600 bytes. SUB: cluster 3.
    put(&mut disk, 512 + 4, &4u16.to_le_bytes());
    put(&mut disk, 512 + 6, &0xffffu16.to_le_bytes());
    put(&mut disk, 512 + 8, &0xffffu16.to_le_bytes());
    let root = 18 * 512;
    put(&mut disk, root, b"README  TXT\x01");
    put(&mut disk, root + 26, &2u16.to_le_bytes());
    put(&mut disk, root + 28, &600u32.to_le_bytes());
    put(&mut disk, root + 32, b"SUB        \x10");
    put(&mut disk, root + 32 + 26, &3u16.to_le_bytes());
    put(&mut disk, root + 64, b"\xe5OLD    TXT\x00");
    let data = 19 * 512;
    for i in 0..512 {
        disk[data + i] = b'a';
        disk[data + 2 * 512 + i] = b'b';
    }
    let sub = data + 512;
    put(&mut disk, sub, b".          \x10");
    put(&mut disk, sub + 32, b"EMPTY      \x00");
    disk
}

#[test]
fn a_ram_disk_holds_what_is_written() {
    let mut disk = RamDisk { bytes: vec![0u8; 8192] };
    assert_eq!(disk.write_at(100, b"abc"), Ok(()));
    let mut buf = [0u8; 3];
    assert_eq!(disk.read_at(100, &mut buf), Ok(()));
    assert_eq!(&buf, b"abc");
    assert!(disk.read_at(8190, &mut buf).is_err());
    assert!(disk.write_at(8190, b"abc").is_err());
    assert_eq!(disk.size_bytes(), Some(8192));
}

#[test]
fn a_part_of_a_disk_has_its_own_offsets() {
    let mut disk = RamDisk { bytes: vec![0u8; 16384] };
    let mut range = BlockRange::new(4096, Some(8192));
    assert_eq!(range.write_at(&mut disk, 10, b"xyz"), Ok(()));
    assert_eq!(&disk.bytes[4106..4109], b"xyz");
    let mut buf = [0u8; 3];
    assert_eq!(range.read_at(&disk, 10, &mut buf), Ok(()));
    assert_eq!(&buf, b"xyz");
    assert_eq!(range.read_at(&disk, 8190, &mut buf), Err(SysErrNo::EINVAL));
    assert_eq!(range.write_at(&mut disk, 8190, b"xyz"), Err(SysErrNo::EINVAL));
}

#[test]
fn cached_blocks_follow_writes() {
    let mut disk = RamDisk { bytes: vec![1u8; 16384] };
    let mut range = BlockRange::new(0, None);
    assert_eq!(range.read_cached_block(&disk, 4096), vec![1u8; 4096]);
    assert_eq!(range.write_at(&mut disk, 4096, &[7]), Ok(()));
    assert_eq!(range.read_cached_block(&disk, 4096)[0], 7);
    let both = range.read_cached_blocks(&disk, &[4096, 8192]).unwrap();
    assert_eq!((both[0][0], both[1][0], both.len()), (7, 1, 2));
    assert!(range.read_cached_blocks(&disk, &[16384]).is_err());
}

#[test]
fn blocks_from_any_offset() {
    let mut bytes = vec![0u8; 12288];
    bytes[4096..8192].fill(1);
    bytes[8192..].fill(2);
    let disk = RamDisk { bytes };
    let mut range = BlockRange::new(0, None);
    let seen = range.read_offset(&disk, 4106);
    assert_eq!(seen.len(), 4096);
    assert!(seen[..4086].iter().all(|b| *b == 1));
    assert!(seen[4086..].iter().all(|b| *b == 2));
    assert_eq!(range.read_offset(&disk, usize::MAX - 5), vec![0u8; 4096]);
}

#[test]
fn a_cache_forgets_what_is_overwritten() {
    let mut cache = BlockCache::new();
    cache.insert(0, vec![1]);
    cache.insert(4096, vec![2]);
    cache.invalidate_range(4095, 2);
    assert_eq!(cache.get(0), None);
    assert_eq!(cache.get(4096), None);
    cache.insert(0, vec![3]);
    cache.invalidate_range(4096, 100);
    assert_eq!(cache.get(0), Some(vec![3]));
}

#[test]
fn partitions_of_a_disk() {
    let mut bytes = vec![0u8; 4096];
    part_entry(&mut bytes, 0, 0x83, 8, 100);
    part_entry(&mut bytes, 2, 0x0c, 200, 50);
    part_entry(&mut bytes, 3, 0x83, 300, 0);
    let parts = parse_mbr_partitions(&RamDisk { bytes });
    let told: Vec<(u32, u64, u64)> =
        parts.iter().map(|p| (p.index, p.start_lba, p.sectors)).collect();
    assert_eq!(told, vec![(1, 8, 100), (3, 200, 50)]);
    assert!(parse_mbr_partitions(&RamDisk { bytes: vec![0u8; 512] }).is_empty());
}

#[test]
fn partitions_of_a_large_disk() {
    let mut bytes = vec![0u8; 4096];
    part_entry(&mut bytes, 0, 0xee, 1, 7);
    put(&mut bytes, 512, b"EFI PART");
    put(&mut bytes, 512 + 72, &2u64.to_le_bytes());
    put(&mut bytes, 512 + 80, &2u32.to_le_bytes());
    put(&mut bytes, 512 + 84, &128u32.to_le_bytes());
    let second = 1024 + 128;
    bytes[second] = 9;
    put(&mut bytes, second + 32, &40u64.to_le_bytes());
    put(&mut bytes, second + 40, &49u64.to_le_bytes());
    let disk = RamDisk { bytes };
    let parts = parse_mbr_partitions(&disk);
    assert_eq!(parts.len(), 1);
    assert_eq!((parts[0].index, parts[0].start_lba, parts[0].sectors), (2, 40, 10));
    assert_eq!(parse_gpt_partitions(&disk).len(), 1);
}

#[test]
fn the_root_is_where_the_file_system_is() {
    let mut bytes = vec![0u8; 65536];
    part_entry(&mut bytes, 0, 0x83, 8, 16);
    part_entry(&mut bytes, 1, 0x83, 32, 16);
    let second = 32 * 512;
    put(&mut bytes, second + 0x438, &[0x53, 0xef]);
    let disk = RamDisk { bytes };
    let mut devices = BlockDevices::new();
    assert_eq!(devices.root_source_path(), "/dev/vda");
    let root = devices.register_virtio_disk(&disk);
    assert_eq!(root, 2);
    assert_eq!(devices.root_source_path(), "/dev/vda2");
    assert!(devices.is_root_source("/dev/vda2"));
    assert_eq!(devices.root_device_numbers(), Some((254, 2)));
    assert_eq!(devices.device_numbers_for_path("/dev/vda"), Some((254, 0)));
    assert_eq!(devices.minor_for_path("/dev/vda1"), Some(1));
    assert!(devices.block_device_available("/dev/loop0"));
    assert!(!devices.block_device_available("/dev/vdb"));
    assert_eq!(devices.range_for_path("/dev/vda1"), Some(1));
    let blocks = devices.read_root_blocks(&disk, &[0]).unwrap();
    assert_eq!(&blocks[0][0x438..0x43a], &[0x53, 0xef]);
    assert!(devices.list_device_paths().contains(&"/dev/vda2".to_string()));
}

#[test]
fn no_root_without_a_disk() {
    let mut devices = BlockDevices::new();
    let disk = RamDisk { bytes: vec![0u8; 4096] };
    assert!(matches!(devices.read_root_blocks(&disk, &[0]), Err(SysErrNo::ENODEV)));
}

#[test]
fn names_of_loop_devices() {
    assert_eq!(loop_device_path(3), "/dev/loop3");
    assert_eq!(loop_device_alt_path(3), "/dev/loop/3");
    assert_eq!(loop_device_block_path(3), "/dev/block/loop3");
    assert_eq!(loop_index_for_path("/dev/loop3"), Some(3));
    assert_eq!(loop_index_for_path("/dev/loop/1"), Some(1));
    assert_eq!(loop_index_for_path("/dev/loop4"), None);
    assert!(loop_control_path("/dev/loop-control"));
}

#[test]
fn a_loop_device_shows_a_file() {
    let mut mem = MemFileSystem::new();
    let mut vol = Ext4Volume::new();
    let mut devices = BlockDevices::new();
    mem.add_file(&caller(), "/img", b"image".to_vec());
    assert_eq!(devices.first_free_loop(), Some(0));
    assert_eq!(devices.loop_is_attached(0), Ok(false));
    assert_eq!(devices.loop_is_attached(9), Err(SysErrNo::ENODEV));
    let backing = LoopBacking::MemFile { path: "/img".to_string() };
    assert_eq!(devices.attach_loop(&mut vol, 0, backing), Ok(()));
    let again = LoopBacking::MemFile { path: "/img".to_string() };
    assert_eq!(devices.attach_loop(&mut vol, 0, again), Err(SysErrNo::EBUSY));
    assert_eq!(devices.first_free_loop(), Some(1));
    assert!(matches!(devices.loop_size(&mem, &vol, 0), Ok(5)));
    let mut buf = [0u8; 3];
    assert!(matches!(devices.loop_read_at(&mem, &mut vol, 0, 1, &mut buf, &[]), Ok(3)));
    assert_eq!(&buf, b"mag");
    assert!(matches!(
        devices.loop_write_at(&mut mem, &mut vol, &caller(), 0, 4, b"!", &[], 0),
        Ok(1)
    ));
    assert_eq!(mem.get_file("/img").unwrap().to_vec(&mem), b"imag!".to_vec());
    assert!(devices.detach_loop(&mut vol, 0).is_ok());
    assert_eq!(devices.first_free_loop(), Some(0));
    assert!(matches!(devices.detach_loop(&mut vol, 0), Err(SysErrNo::ENXIO)));
}

#[test]
fn short_names() {
    assert_eq!(short_name(b"README  TXT"), Some("readme.txt".to_string()));
    assert_eq!(short_name(b"SUB        "), Some("sub".to_string()));
    assert_eq!(short_name(b"\xe5UB        "), None);
    assert_eq!(short_name(b"SUB"), None);
    assert_eq!(short_name(b"\xff\xfeB        "), None);
}

#[test]
fn files_of_a_fat_volume() {
    let disk = RamDisk { bytes: fat16() };
    let range = BlockRange::new(0, None);
    let volume = VfatVolume::open(&disk, &range).unwrap();
    assert_eq!(volume.fat_kind, FatKind::Fat16);
    assert_eq!(volume.first_data_sector, 19);
    let text = volume.read_file(&disk, &range, "/readme.TXT").unwrap();
    assert_eq!(text.len(), 600);
    assert!(text[..512].iter().all(|b| *b == b'a'));
    assert!(text[512..].iter().all(|b| *b == b'b'));
    let meta = volume.metadata(&disk, &range, "/readme.txt").unwrap();
    assert_eq!((meta.is_dir, meta.readonly, meta.size), (false, true, 600));
    let root = volume.metadata(&disk, &range, "/").unwrap();
    assert_eq!((root.is_dir, root.readonly, root.size), (true, true, 0));
    let names: Vec<String> =
        volume.list_dir(&disk, &range, "/").unwrap().into_iter().map(|e| e.name).collect();
    assert_eq!(names, vec!["readme.txt", "sub"]);
    let names: Vec<String> =
        volume.list_dir(&disk, &range, "/sub").unwrap().into_iter().map(|e| e.name).collect();
    assert_eq!(names, vec!["empty"]);
    assert_eq!(volume.read_file(&disk, &range, "/sub/empty"), Ok(Vec::new()));
    assert_eq!(volume.read_file(&disk, &range, "/sub"), Err(SysErrNo::EISDIR));
    assert_eq!(volume.read_file(&disk, &range, "/none"), Err(SysErrNo::ENOENT));
    assert!(matches!(
        volume.metadata(&disk, &range, "/readme.txt/x"),
        Err(SysErrNo::ENOTDIR)
    ));
}

#[test]
fn what_is_no_fat_volume() {
    let range = BlockRange::new(0, None);
    let zeros = RamDisk { bytes: vec![0u8; 4096] };
    assert!(matches!(VfatVolume::open(&zeros, &range), Err(SysErrNo::EINVAL)));
    let mut bytes = fat16();
    bytes[13] = 3;
    assert!(matches!(VfatVolume::open(&RamDisk { bytes }, &range), Err(SysErrNo::EINVAL)));
}

#[test]
fn loop_devices_are_used_again() {
    let mut vol = Ext4Volume::new();
    let mut devices = BlockDevices::new();
    for index in 0..4 {
        let file = LoopBacking::Ext4Regular { ino: 12 };
        assert_eq!(devices.attach_loop(&mut vol, index, file), Ok(()));
    }
    assert_eq!(devices.first_free_loop(), None);
    assert_eq!(devices.detach_loop(&mut vol, 4), Err(SysErrNo::ENODEV));
    let file = LoopBacking::Ext4Regular { ino: 12 };
    assert_eq!(devices.attach_loop(&mut vol, 4, file), Err(SysErrNo::ENODEV));
    assert_eq!(devices.detach_loop(&mut vol, 2), Ok(false));
    assert_eq!(devices.detach_loop(&mut vol, 2), Err(SysErrNo::ENXIO));
    assert!(vol.has_open_regular_ref(12));
    let other = LoopBacking::Ext4Regular { ino: 13 };
    assert_eq!(devices.attach_loop(&mut vol, 2, other), Ok(()));
    assert_eq!(devices.loop_is_attached(1), Ok(true));
    for index in 0..4 {
        assert_eq!(devices.detach_loop(&mut vol, index), Ok(false));
    }
    assert!(!vol.has_open_regular_ref(12));
    assert!(!vol.has_open_regular_ref(13));
}

#[test]
fn writing_a_part_fails_only_where_it_must() {
    let mut disk = RamDisk { bytes: vec![0u8; 8192] };
    let mut range = BlockRange::new(4096, None);
    assert_eq!(range.write_at(&mut disk, 4093, b"end"), Ok(()));
    assert_eq!(&disk.bytes[8189..], b"end");
    assert_eq!(range.write_at(&mut disk, 4094, b"end"), Err(SysErrNo::EIO));
    assert_eq!(&disk.bytes[8189..], b"end");
    assert_eq!(range.write_at(&mut disk, usize::MAX, b"x"), Err(SysErrNo::EINVAL));
    assert_eq!(range.write_at(&mut disk, usize::MAX - 4095, b"x"), Err(SysErrNo::EINVAL));
    assert!(disk.bytes[..8189].iter().all(|b| *b == 0));
}

#[test]
fn blocks_in_any_order() {
    let mut bytes = vec![1u8; 4096];
    bytes.extend(vec![2u8; 4096]);
    bytes.extend(vec![3u8; 4096]);
    let disk = RamDisk { bytes };
    let mut range = BlockRange::new(0, None);
    let blocks = range.read_cached_blocks(&disk, &[8192, 0, 4096, 0]).unwrap();
    let firsts: Vec<u8> = blocks.iter().map(|b| b[0]).collect();
    assert_eq!(firsts, vec![3, 1, 2, 1]);
    assert_eq!(range.read_cached_blocks(&disk, &[0, 12288]), Err(SysErrNo::EIO));
    let mut part = BlockRange::new(0, Some(8192));
    assert_eq!(part.read_cached_blocks(&disk, &[4096, 8192]), Err(SysErrNo::EINVAL));
    assert_eq!(part.read_cached_blocks(&disk, &[]), Ok(Vec::new()));
}

#[test]
fn a_block_that_was_read_is_cached() {
    let mut disk = RamDisk { bytes: vec![1u8; 12288] };
    let mut range = BlockRange::new(0, None);
    assert_eq!(range.read_cached_block(&disk, 0)[0], 1);
    assert_eq!(range.read_cached_blocks(&disk, &[4096]).unwrap()[0][0], 1);
    disk.bytes.fill(9);
    assert_eq!(range.read_cached_block(&disk, 0)[0], 1);
    assert_eq!(range.read_cached_block(&disk, 4096)[0], 1);
    assert_eq!(range.read_cached_block(&disk, 8192)[0], 9);
    let seen = range.read_offset(&disk, 4097);
    assert_eq!((seen[0], seen[4094], seen[4095]), (1, 1, 9));
    assert_eq!(range.read_cached_block(&disk, 100), vec![9u8; 4096]);
    assert_eq!(range.read_cached_blocks(&disk, &[100, 200]).unwrap().len(), 2);
}

#[test]
fn reading_the_root_leaves_the_devices() {
    let disk = RamDisk { bytes: vec![0u8; 65536] };
    let mut devices = BlockDevices::new();
    let _ = devices.register_virtio_disk(&disk);
    let root = devices.root_source_path();
    let paths = devices.list_device_paths();
    assert_eq!(devices.read_root_blocks(&disk, &[4096, 0]).unwrap().len(), 2);
    assert_eq!(devices.read_root_blocks(&disk, &[65536]), Err(SysErrNo::EINVAL));
    assert_eq!(devices.root_source_path(), root);
    assert_eq!(devices.list_device_paths(), paths);
}

#[test]
fn a_loop_device_leaves_the_names() {
    let mut vol = Ext4Volume::new();
    vol.names.mounted = true;
    let mut devices = BlockDevices::new();
    let file = LoopBacking::Ext4Regular { ino: 12 };
    assert_eq!(devices.attach_loop(&mut vol, 0, file), Ok(()));
    assert!(vol.names.is_ext4_mounted());
    assert_eq!(devices.detach_loop(&mut vol, 0), Ok(false));
    assert!(vol.names.is_ext4_mounted());
    assert!(matches!(devices.loop_size(&MemFileSystem::new(), &vol, 0), Err(_)));
}
