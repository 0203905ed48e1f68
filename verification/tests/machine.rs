use wll_os::boot::{add_available_frames, available_memory};
use wll_os::config::limits::MAX_CPUS;
use wll_os::config::user_va::{
    high_mmap_arena, is_user_mappable_range, low_mmap_arena, mmap_arena_containing, UserVaRange,
    DEFAULT_HIGH_MMAP_BASE, DEFAULT_MMAP_BASE, LOW_USER_END, USER_ADDRESS_LIMIT,
};
use wll_os::cpu::CpuLocal;
use wll_os::drivers::device_tree::{
    dtb_totalsize, is_walkable, probe_first_virtio_disk_from_dt,
};
use wll_os::drivers::hal::{phys_to_virt_mmio, phys_to_virt_ram, virt_to_phys};
use wll_os::drivers::pci::{bar_needs_address, next_bar, PciBarAllocator};
use wll_os::drivers::sectors::{size_of_disk, SectorSpan};
use wll_os::logging::{init, Level, LevelFilter};

fn word(out: &mut Vec<u8>, n: u32) {
    out.extend_from_slice(&n.to_be_bytes());
}

fn text(out: &mut Vec<u8>, s: &str) {
    out.extend_from_slice(s.as_bytes());
    out.push(0);
    while out.len() % 4 != 0 {
        out.push(0);
    }
}

fn property(out: &mut Vec<u8>, name_at: u32, value: &[u8]) {
    word(out, 3);
    word(out, value.len() as u32);
    word(out, name_at);
    out.extend_from_slice(value);
    while out.len() % 4 != 0 {
        out.push(0);
    }
}

fn device(out: &mut Vec<u8>, name: &str, kind: &str, address: u64) {
    word(out, 1);
    text(out, name);
    let mut kind = kind.as_bytes().to_vec();
    kind.push(0);
    property(out, 27, &kind);
    let mut reg = address.to_be_bytes().to_vec();
    reg.extend_from_slice(&0x1000u64.to_be_bytes());
    property(out, 38, &reg);
    word(out, 2);
}

fn device_tree() -> Vec<u8> {
    let strings = b"#address-cells\0#size-cells\0compatible\0reg\0";
    let mut nodes = Vec::new();
    word(&mut nodes, 1);
    text(&mut nodes, "");
    property(&mut nodes, 0, &2u32.to_be_bytes());
    property(&mut nodes, 15, &2u32.to_be_bytes());
    device(&mut nodes, "uart@10000000", "ns16550a", 0x1000_0000);
    device(&mut nodes, "virtio_mmio@10001000", "virtio,mmio", 0x1000_1000);
    device(&mut nodes, "virtio_mmio@10002000", "virtio,mmio", 0x1000_2000);
    word(&mut nodes, 2);
    word(&mut nodes, 9);
    let structure = 56;
    let names = structure + nodes.len();
    let total = names + strings.len();
    let mut blob = Vec::new();
    for n in [
        0xd00d_feed,
        total as u32,
        structure as u32,
        names as u32,
        40,
        17,
        16,
        0,
        strings.len() as u32,
        nodes.len() as u32,
    ] {
        word(&mut blob, n);
    }
    blob.extend_from_slice(&[0; 16]);
    blob.extend_from_slice(&nodes);
    blob.extend_from_slice(strings);
    blob
}

#[test]
fn disks_in_a_device_tree() {
    let blob = device_tree();
    assert_eq!(dtb_totalsize(&blob), Some(blob.len()));
    assert!(is_walkable(&blob));
    assert_eq!(
        probe_first_virtio_disk_from_dt(&blob),
        Some(vec![0x1000_1000, 0x1000_2000])
    );
}

#[test]
fn what_is_no_device_tree() {
    let mut blob = device_tree();
    blob[0] = 0;
    assert_eq!(dtb_totalsize(&blob), None);
    assert!(is_walkable(&blob));
    assert_eq!(probe_first_virtio_disk_from_dt(&blob), None);
    let mut unbalanced = device_tree();
    unbalanced[56..60].copy_from_slice(&2u32.to_be_bytes());
    assert!(!is_walkable(&unbalanced));
}

#[test]
fn windows_of_memory() {
    assert_eq!(phys_to_virt_ram(0x8000_0000, true), 0x9000_0000_8000_0000);
    assert_eq!(phys_to_virt_mmio(0x1000, true), 0x8000_0000_0000_1000);
    assert_eq!(virt_to_phys(0x9000_0000_8000_0000, true), 0x8000_0000);
    assert_eq!(
        virt_to_phys(phys_to_virt_ram(0x8020_0000, false), false),
        0x8020_0000
    );
}

#[test]
fn addresses_for_devices() {
    let mut bars = PciBarAllocator::new(0x4000_0000, 0x2_0000);
    assert_eq!(bars.alloc_bar(0x1000), Some(0x4000_0000));
    assert_eq!(bars.alloc_bar(0x4000), Some(0x4000_4000));
    assert_eq!(bars.alloc_bar(0x2_0000), None);
    assert_eq!(bars.alloc_bar(3), None);
    assert!(bar_needs_address(0, 0x1000));
    assert!(!bar_needs_address(0x4000_0000, 0x1000));
    assert!(!bar_needs_address(0, 0));
    assert_eq!(next_bar(0, true), 2);
    assert_eq!(next_bar(2, false), 3);
}

#[test]
fn bytes_by_sectors() {
    let span = SectorSpan::new(1000, 100);
    assert_eq!((span.sector, span.skip, span.count), (1, 488, 2));
    assert_eq!(span.bytes(), 1024);
    assert!(span.needs_read(100));
    assert!(!SectorSpan::new(512, 1024).needs_read(1024));
    let mut sectors: Vec<u8> = (0..1024).map(|i| (i % 251) as u8).collect();
    let mut buf = [0u8; 100];
    span.take_out(&sectors, &mut buf);
    assert_eq!(buf[..], sectors[488..588]);
    span.put_in(&mut sectors, &[7; 100]);
    assert!(sectors[488..588].iter().all(|b| *b == 7));
    assert_eq!(sectors[487], (487 % 251) as u8);
    assert_eq!(size_of_disk(3), Some(1536));
    assert_eq!(size_of_disk(u64::MAX), None);
}

#[test]
fn frames_beside_the_kernel() {
    assert_eq!(
        add_available_frames(0x1000, 0x9000, 0x3000, 0x5000),
        vec![(0x1000, 0x3000), (0x5000, 0x9000)]
    );
    assert_eq!(add_available_frames(0x6000, 0x9000, 0x3000, 0x5000), vec![(0x6000, 0x9000)]);
    assert!(add_available_frames(0x3000, 0x5000, 0x3000, 0x5000).is_empty());
    assert!(!available_memory(&vec![(0x1000, 0x8000)], 0x3000, 0x5000).is_empty());
}

#[test]
fn addresses_of_programs() {
    assert_eq!(low_mmap_arena().start, DEFAULT_MMAP_BASE);
    assert_eq!(high_mmap_arena().start, DEFAULT_HIGH_MMAP_BASE);
    assert!(is_user_mappable_range(0x1000, 0x2000));
    assert!(!is_user_mappable_range(LOW_USER_END, LOW_USER_END + 1));
    assert!(!is_user_mappable_range(0x2000, 0x1000));
    assert!(mmap_arena_containing(DEFAULT_MMAP_BASE).is_some());
    assert!(mmap_arena_containing(0x1000).is_none());
    assert!(mmap_arena_containing(USER_ADDRESS_LIMIT).is_none());
    let range = UserVaRange { start: 10, end: 20 };
    assert!(range.contains_addr(10));
    assert!(!range.contains_addr(20));
    assert!(range.contains_range(10, 20));
    assert!(!range.contains_range(10, 21));
}

#[test]
fn levels_of_messages() {
    assert!(matches!(init(Some("error")), LevelFilter::UpTo(Level::Error)));
    assert!(matches!(init(Some("warn")), LevelFilter::UpTo(Level::Warn)));
    assert!(matches!(init(Some("info")), LevelFilter::UpTo(Level::Info)));
    assert!(matches!(init(Some("debug")), LevelFilter::UpTo(Level::Debug)));
    assert!(matches!(init(Some("trace")), LevelFilter::UpTo(Level::Trace)));
    assert!(matches!(init(Some("WARN")), LevelFilter::Off));
    assert!(matches!(init(None), LevelFilter::Off));
    assert_eq!(Level::Error.line("x"), "\x1b[31m[ERROR] x\x1b[0m");
    assert_eq!(Level::Warn.line("x"), "\x1b[33m[ WARN] x\x1b[0m");
}

#[test]
fn values_of_processors() {
    let squares = CpuLocal::new_with(|cpu| cpu * cpu);
    assert_eq!(*squares.local(0), 0);
    assert_eq!(*squares.local(MAX_CPUS - 1), (MAX_CPUS - 1) * (MAX_CPUS - 1));
}

#[test]
fn values_of_processors_are_set() {
    let mut counts = CpuLocal::new_with(|_| 0usize);
    *counts.local_mut(1) += 5;
    *counts.local_mut(1) += 2;
    assert_eq!((*counts.local(0), *counts.local(1)), (0, 7));
}
