use wll_os::errno::SysErrNo;
use wll_os::fs::ext4::access::{ImageSource, ReadFault, WritebackWorker};
use wll_os::fs::ext4::caches::{
    clean_page_cache_limit, clean_page_key, CleanPageCache, CleanPageKey, ImageCache, PathCache,
    PblockRunCache, WritebackQueue,
};
use wll_os::fs::ext4::data::{checked_file_end, TruncateWork};
use wll_os::fs::ext4::dirty::{DirtyRange, PageCacheDirtyModel, PageCacheWritebackState};
use wll_os::fs::ext4::mount::Ext4Volume;
use wll_os::fs::ext4::pages::{
    block_position, extent_aware_read_at, extent_pblock_for_read, fill_clean_page_frame,
    run_length, run_lookahead, FramesStep,
};
use wll_os::fs::ext4::plans::{split_parent_name, ExchangeStage, RenameStep};
use wll_os::fs::ext4::regular::CachedRegularFile;
use wll_os::fs::ext4::resolve::{inline_link_target, resolve_link_target};
use wll_os::fs::ext4::sync::{
    check_superblock, finish_unlinked_regular, DrainStep, FlushStep,
};
use wll_os::fs::ext4::types::{
    current_ext4_time, ext4_extra_nsec, ext4_nsec_extra, inode_metadata, map_ext4_err,
    new_child_ids_and_mode, node_kind, regular_blocks, DiskInode, Ext4NodeKind,
};
use wll_os::fs::ext4::volume::{
    dir_table, DirChild, Ext4Names, Fault, Load, RawEntry, DIRENT_DIR, DIRENT_UNKNOWN,
};
use wll_os::fs::ext4::writeback::{
    snapshot_emptied, snapshot_final_size, snapshot_truncation, WritebackSnapshotResult,
};
use wll_os::task::Credentials;
use wll_os::textmap::TextMap;

fn inode(mode: u16, size: u64, links: u16) -> DiskInode {
    DiskInode {
        mode,
        flags: 0,
        links,
        uid: 1,
        gid: 2,
        size,
        blocks: 0,
        atime: 10,
        atime_extra: 4,
        mtime: 20,
        mtime_extra: 8,
        ctime: 30,
        ctime_extra: 12,
        dtime: 0,
    }
}

fn child(ino: u32, is_dir: bool) -> DirChild {
    DirChild { ino, is_dir }
}

// The tree "/f" (file 12), "/d" (directory 11), "/d/g" (file 13), "/l" (a link
// to "d/g").
fn names() -> Ext4Names {
    let mut names = Ext4Names::new();
    names.mounted = true;
    let mut root = TextMap::new();
    root.insert("f".to_string(), child(12, false));
    root.insert("d".to_string(), child(11, true));
    root.insert("l".to_string(), child(14, false));
    names.install_dir(2, root);
    let mut dir = TextMap::new();
    dir.insert("g".to_string(), child(13, false));
    names.install_dir(11, dir);
    names.install_inode(2, inode(0x41ed, 4096, 3));
    names.install_inode(11, inode(0x41ed, 4096, 2));
    names.install_inode(12, inode(0x81a4, 5, 1));
    names.install_inode(13, inode(0x81a4, 7, 2));
    names.install_inode(14, inode(0xa1ff, 3, 1));
    names.install_link(14, b"d/g".to_vec());
    names
}

fn volume() -> Ext4Volume {
    let mut vol = Ext4Volume::new();
    vol.names = names();
    vol
}

fn clean_file(data: &[u8]) -> CachedRegularFile {
    CachedRegularFile::new(
        data.len(),
        data.len(),
        Some(data.to_vec()),
        PageCacheDirtyModel::clean(),
        1,
        0,
        1,
        0,
    )
}

#[test]
fn kinds_and_errors() {
    assert_eq!(node_kind(0x81a4), Ext4NodeKind::Regular);
    assert_eq!(node_kind(0x41ed), Ext4NodeKind::Directory);
    assert_eq!(node_kind(0xa1ff), Ext4NodeKind::Symlink);
    assert_eq!(node_kind(0x11a4), Ext4NodeKind::Other);
    for (code, errno) in [
        (2, SysErrNo::ENOENT),
        (17, SysErrNo::EEXIST),
        (20, SysErrNo::ENOTDIR),
        (21, SysErrNo::EISDIR),
        (22, SysErrNo::EINVAL),
        (28, SysErrNo::ENOSPC),
        (30, SysErrNo::EROFS),
        (9, SysErrNo::EBADF),
        (1, SysErrNo::EPERM),
        (13, SysErrNo::EACCES),
        (27, SysErrNo::EFBIG),
        (31, SysErrNo::EMLINK),
        (5, SysErrNo::EIO),
        (99, SysErrNo::EIO),
    ] {
        assert_eq!(map_ext4_err(code), errno);
    }
}

#[test]
fn times_of_inodes() {
    assert_eq!(ext4_extra_nsec(4_000), 1_000);
    assert_eq!(ext4_nsec_extra(999_999_999), 3_999_999_996);
    assert_eq!(ext4_nsec_extra(-5), 0);
    assert_eq!(ext4_extra_nsec(ext4_nsec_extra(123_456)), 123_456);
    assert_eq!(current_ext4_time(7), 7);
    assert_eq!(current_ext4_time(usize::MAX), u32::MAX);
    assert_eq!(regular_blocks(513), 2);
    let mut node = inode(0x81a4, 5, 1);
    node.touch_inode(50, false, true, true);
    assert_eq!((node.atime, node.mtime, node.mtime_extra, node.ctime), (10, 50, 0, 50));
}

#[test]
fn what_is_told_of_an_inode() {
    let meta = inode_metadata(12, &inode(0x81a4, 5, 1));
    assert_eq!((meta.ino, meta.mode, meta.nlink, meta.size), (12, 0x81a4, 1, 5));
    assert_eq!((meta.mtime_sec, meta.mtime_nsec), (20, 2));
}

#[test]
fn owners_and_modes_of_inodes() {
    let mut node = inode(0x89ed, 5, 1);
    node.set_mode_ino(0o600, 9);
    assert_eq!((node.mode, node.ctime), (0x8180, 9));
    node.set_mode_ino(0o4755, 9);
    assert_eq!(node.set_owner_ino(Some(7), None, 10), Ok(()));
    assert_eq!((node.uid, node.gid, node.mode), (7, 2, 0x81ed));
    assert_eq!(node.set_owner_ino(Some(70_000), None, 10), Err(SysErrNo::EINVAL));
    node.set_times_ino(Some((5, 6)), None, 11);
    assert_eq!((node.atime, node.atime_extra, node.ctime), (5, 24, 11));
    node.set_file_flags_ino(16, 12);
    assert_eq!((node.flags, node.ctime), (16, 12));
    let (uid, gid, mode) =
        new_child_ids_and_mode(&Credentials::root(), &inode(0x45ed, 0, 2), 0o755, true);
    assert_eq!((uid, gid, mode), (0, 2, 0o2755));
}

#[test]
fn dirty_ranges_join() {
    let mut dirty = PageCacheDirtyModel::clean();
    assert!(!dirty.is_dirty());
    dirty.mark_dirty_range(100, 10, 20);
    dirty.mark_dirty_range(100, 40, 50);
    dirty.mark_dirty_range(100, 20, 40);
    assert_eq!(dirty.ranges, vec![DirtyRange { start: 10, end: 50 }]);
    dirty.mark_dirty_range(100, 90, 200);
    assert_eq!(dirty.ranges[1], DirtyRange { start: 90, end: 100 });
    dirty.clip_dirty_ranges(30);
    assert_eq!(dirty.ranges, vec![DirtyRange { start: 10, end: 30 }]);
}

#[test]
fn states_of_writing_back() {
    let mut dirty = PageCacheDirtyModel::dirty_whole_file();
    dirty.note_queued();
    assert_eq!(dirty.writeback, PageCacheWritebackState::Queued);
    assert_eq!(dirty.begin_writeback(), Some(1));
    assert_eq!(dirty.begin_writeback(), None);
    dirty.note_write();
    assert_eq!(dirty.writeback, PageCacheWritebackState::DirtyDuringWriteback);
    assert!(dirty.finish_writeback(1, None, true));
    assert_eq!(dirty.writeback, PageCacheWritebackState::Dirty);
    assert_eq!(dirty.begin_writeback(), Some(2));
    assert!(!dirty.finish_writeback(2, None, true));
    assert_eq!(dirty.writeback, PageCacheWritebackState::Clean);
    dirty.fail_writeback(SysErrNo::ENOSPC);
    assert_eq!(dirty.last_error, Some(SysErrNo::ENOSPC));
}

#[test]
fn a_cached_write_is_read_back() {
    let mut file = clean_file(b"hello");
    assert_eq!(file.cached_regular_write(3, b"XYZ", &[], 7), Ok(3));
    let mut buf = [0u8; 10];
    assert_eq!(file.cached_regular_read(1, &mut buf, &[]), Ok(5));
    assert_eq!(&buf[..5], b"elXYZ");
    assert!(file.is_dirty());
    assert_eq!(file.info().mtime_sec, 7);
    file.promote_dense_regular_cache();
    assert_eq!(file.cached_regular_read(0, &mut buf, &[]), Ok(6));
    assert_eq!(&buf[..6], b"helXYZ");
}

#[test]
fn pages_that_are_only_on_disk() {
    let disk = vec![5u8; 10_000];
    let mut file = CachedRegularFile::new(
        10_000,
        10_000,
        None,
        PageCacheDirtyModel::clean(),
        1,
        0,
        1,
        0,
    );
    assert_eq!(file.cached_regular_write(5000, b"ab", &[], 7), Err(SysErrNo::EIO));
    assert_eq!(file.cached_regular_write(5000, b"ab", &disk[4096..8192], 7), Ok(2));
    let mut buf = [0u8; 4];
    assert_eq!(file.cached_regular_read(4999, &mut buf, &[]), Ok(4));
    assert_eq!(&buf, &[5, b'a', b'b', 5]);
    assert_eq!(file.cached_regular_read(0, &mut buf, &[]), Err(SysErrNo::EIO));
    assert_eq!(file.cached_regular_read(0, &mut buf, &disk[..4]), Ok(4));
    assert_eq!(buf, [5; 4]);
}

#[test]
fn what_was_written_reaches_the_disk() {
    let mut disk = b"hello".to_vec();
    let mut file = clean_file(&disk);
    file.cached_regular_resize(3, 8);
    assert_eq!(file.cached_regular_write(6, b"end", &[], 9), Ok(3));
    let mut rounds = 0;
    while file.is_dirty() {
        let snapshot = match file.take_writeback_snapshot(12, &[]) {
            WritebackSnapshotResult::Snapshot(s) => s,
            _ => panic!("nothing to write"),
        };
        if let Some(len) = snapshot_truncation(&snapshot, disk.len() as u64) {
            disk.truncate(len as usize);
        }
        if let Some(range) = snapshot.range {
            if disk.len() < range.end {
                disk.resize(range.end, 0);
            }
            disk[range.start..range.end].copy_from_slice(&snapshot.data);
        }
        if let Some(len) = snapshot_final_size(&snapshot, disk.len() as u64) {
            disk.resize(len as usize, 0);
        }
        assert_eq!(snapshot_emptied(&snapshot, 5, disk.len() as u64), Ok(()));
        file.finish_writeback_snapshot(&snapshot, Ok(()));
        rounds += 1;
    }
    assert_eq!(rounds, 1);
    assert_eq!(disk, b"hel\0\0\0end".to_vec());
    assert_eq!(file.persisted_size, 9);
    assert!(matches!(file.take_writeback_snapshot(12, &[]), WritebackSnapshotResult::Clean));
}

#[test]
fn a_failed_write_is_told_once() {
    let mut file = clean_file(b"hello");
    assert_eq!(file.cached_regular_write(0, b"J", &[], 9), Ok(1));
    let snapshot = match file.take_writeback_snapshot(12, &[]) {
        WritebackSnapshotResult::Snapshot(s) => s,
        _ => panic!("nothing to write"),
    };
    assert!(matches!(file.take_writeback_snapshot(12, &[]), WritebackSnapshotResult::Busy));
    assert!(!file.finish_writeback_snapshot(&snapshot, Err(SysErrNo::ENOSPC)));
    assert!(matches!(
        file.take_writeback_snapshot(12, &[]),
        WritebackSnapshotResult::Failed(SysErrNo::ENOSPC)
    ));
    assert!(file.acknowledge_writeback_error(SysErrNo::ENOSPC));
    assert!(matches!(
        file.take_writeback_snapshot(12, &[]),
        WritebackSnapshotResult::Snapshot(_)
    ));
}

#[test]
fn paths_lead_to_inodes() {
    let mut names = names();
    assert_eq!(names.lookup("/d/g"), Ok(Some((13, Ext4NodeKind::Regular))));
    assert_eq!(names.lookup("/"), Ok(Some((2, Ext4NodeKind::Directory))));
    assert_eq!(names.lookup("/none"), Ok(None));
    assert_eq!(names.resolve_existing("/d/g"), Ok(Some((13, Ext4NodeKind::Regular))));
    assert_eq!(names.ext4_dir_path_exists("/d"), Ok(true));
    assert_eq!(names.ext4_regular_file_exists("/d"), Ok(false));
    assert_eq!(names.lookup_path("/f"), Ok(Some((12, false))));
    assert_eq!(names.readlink_ext4("/l"), Ok("d/g".to_string()));
    assert_eq!(names.readlink_ext4("/f"), Err(Fault::Sys(SysErrNo::EINVAL)));
    assert_eq!(names.resolve_symlinks("/l"), Ok("/d/g".to_string()));
}

#[test]
fn what_is_not_known_is_asked_for() {
    let mut names = Ext4Names::new();
    names.mounted = true;
    assert_eq!(names.lookup("/f"), Err(Load::Dir(2)));
    let mut root = TextMap::new();
    root.insert("f".to_string(), child(12, false));
    names.install_dir(2, root);
    assert_eq!(names.lookup("/f"), Err(Load::Inode(12)));
}

#[test]
fn forgotten_names_are_looked_up_again() {
    let mut names = names();
    assert_eq!(names.resolve_existing("/x"), Ok(None));
    let mut root = TextMap::new();
    root.insert("x".to_string(), child(12, false));
    names.invalidate_namespace_entry(2, "/x");
    names.install_dir(2, root);
    assert_eq!(names.lookup("/x"), Ok(Some((12, Ext4NodeKind::Regular))));
    names.clear_namespace_cache();
    assert_eq!(names.lookup("/x"), Err(Load::Dir(2)));
}

#[test]
fn listings_of_a_volume() {
    let names = names();
    assert_eq!(
        names.ext4_list_dir("/").unwrap(),
        vec![("d".to_string(), true), ("f".to_string(), false), ("l".to_string(), false)]
    );
    assert_eq!(names.ext4_list_dir("/f"), Err(Fault::Sys(SysErrNo::ENOTDIR)));
    assert_eq!(
        names.ext4_list_dir_by_ino(11).unwrap(),
        vec![(13, "g".to_string(), false)]
    );
    let all = names.merged_list_all_file_paths(vec!["/f".to_string(), "/tmp/x".to_string()]).unwrap();
    assert!(all.contains(&"/d/g".to_string()));
    assert!(all.contains(&"/tmp/x".to_string()));
    assert_eq!(all.iter().filter(|p| *p == "/f").count(), 1);
}

#[test]
fn links_of_a_volume() {
    let words: Vec<u32> = vec![u32::from_le_bytes(*b"abcd"); 15];
    let node = inode(0xa1ff, 6, 1);
    assert_eq!(inline_link_target(&node, &words), Some(b"abcdab".to_vec()));
    assert_eq!(inline_link_target(&inode(0xa1ff, 61, 1), &words), None);
    assert_eq!(resolve_link_target("/a/b", "c"), "/a/c");
    assert_eq!(resolve_link_target("/a/b", "/c"), "/c");
}

#[test]
fn plans_for_new_entries() {
    let names = names();
    let root = Credentials::root();
    let entry = names.mkdir_ext4("/d/new", &root).unwrap();
    assert_eq!((entry.place.parent_ino, entry.place.name.as_str()), (11, "new"));
    assert_eq!(entry.mode, 0x41ed);
    let entry = names.create_regular_ext4_with_mode("/x", 0o640, &root).unwrap();
    assert_eq!((entry.place.parent_ino, entry.mode), (2, 0x81a0));
    let stamped = entry.stamped(&inode(0, 0, 1), 77);
    assert_eq!((stamped.mode, stamped.atime, stamped.mtime, stamped.ctime), (0x81a0, 77, 77, 77));
    assert!(matches!(names.mkdir_ext4("/d", &root), Err(Fault::Sys(SysErrNo::EEXIST))));
    assert!(matches!(names.mkdir_ext4("/no/x", &root), Err(Fault::Sys(SysErrNo::ENOENT))));
    assert_eq!(split_parent_name("/a/b"), Ok(("/a".to_string(), "b".to_string())));
    assert_eq!(split_parent_name("/"), Err(SysErrNo::EINVAL));
}

#[test]
fn plans_for_links_and_removals() {
    let names = names();
    let link = names.link_ext4("/f", "/d/h", false).unwrap();
    assert_eq!((link.child_ino, link.place.parent_ino), (12, 11));
    assert!(matches!(
        names.link_ext4("/f", "/d/g", false),
        Err(Fault::Sys(SysErrNo::EEXIST))
    ));
    let removal = names.plan_unlink("/d/g").unwrap();
    assert_eq!((removal.child_ino, removal.links), (13, 2));
    assert!(matches!(names.plan_unlink("/d"), Err(Fault::Sys(SysErrNo::EISDIR))));
    assert!(matches!(
        names.remove_empty_dir_ext4("/d"),
        Err(Fault::Sys(SysErrNo::ENOTEMPTY))
    ));
    assert!(matches!(names.remove_empty_dir_ext4("/f"), Err(Fault::Sys(SysErrNo::ENOTDIR))));
}

#[test]
fn steps_of_renaming() {
    let names = names();
    assert!(matches!(names.rename_ext4("/f", "/f", false), Ok(RenameStep::Done)));
    match names.rename_ext4("/f", "/d/h", false) {
        Ok(RenameStep::Move(m)) => {
            assert_eq!((m.child_ino, m.from.parent_ino, m.to.parent_ino), (12, 2, 11));
            assert!(!m.reparents);
        }
        _ => panic!("no movement"),
    }
    assert!(matches!(names.rename_ext4("/f", "/d/g", false), Ok(RenameStep::Unlink(_))));
    assert!(matches!(
        names.rename_ext4("/f", "/d/g", true),
        Err(Fault::Sys(SysErrNo::EEXIST))
    ));
    assert!(matches!(names.rename_ext4("/f", "/d", false), Err(Fault::Sys(SysErrNo::EISDIR))));
    assert!(matches!(names.rename_ext4("/d", "/f", false), Err(Fault::Sys(SysErrNo::ENOTDIR))));
    assert!(matches!(names.rename_ext4("/d", "/d/x", false), Err(Fault::Sys(SysErrNo::EINVAL))));
    assert!(matches!(names.rename_ext4("/no", "/x", false), Err(Fault::Sys(SysErrNo::ENOENT))));
}

#[test]
fn stages_of_an_exchange() {
    let stage = ExchangeStage::FirstAway;
    assert_eq!(
        stage.renaming("/a", "/b", "/t"),
        Some(("/a".to_string(), "/t".to_string()))
    );
    let stage = stage.next(Ok(()));
    assert_eq!(
        stage.renaming("/a", "/b", "/t"),
        Some(("/b".to_string(), "/a".to_string()))
    );
    let undo = stage.next(Err(SysErrNo::EIO));
    assert_eq!(undo.renaming("/a", "/b", "/t"), Some(("/t".to_string(), "/a".to_string())));
    assert!(matches!(undo.next(Ok(())), ExchangeStage::Ended(Err(SysErrNo::EIO))));
    let stage = stage.next(Ok(()));
    assert_eq!(
        stage.renaming("/a", "/b", "/t"),
        Some(("/t".to_string(), "/b".to_string()))
    );
    assert!(matches!(stage.next(Ok(())), ExchangeStage::Ended(Ok(()))));
}

#[test]
fn the_queue_holds_each_file_once() {
    let mut queue = WritebackQueue::new();
    queue.push(5);
    queue.push(6);
    queue.push(5);
    assert!(queue.has_work());
    assert_eq!(queue.pop(), Some(5));
    queue.remove(6);
    assert_eq!(queue.pop(), None);
    assert!(!queue.has_work());
}

#[test]
fn runs_of_blocks() {
    let mut runs = PblockRunCache::new();
    runs.insert(12, 10, 4, 100);
    assert_eq!(runs.get(12, 13), Some(103));
    assert_eq!(runs.get(12, 14), None);
    assert_eq!(runs.get(13, 10), None);
    runs.invalidate_ino(12);
    assert_eq!(runs.get(12, 10), None);
}

#[test]
fn pages_of_files() {
    let mut pages = CleanPageCache::new();
    for i in 3..6 {
        pages.insert(CleanPageKey { ino: 12, page_idx: i }, vec![i as u8; 4096], 1 << 20);
    }
    assert_eq!(pages.get(CleanPageKey { ino: 12, page_idx: 4 }), Some(vec![4u8; 4096]));
    assert_eq!(pages.uncached_prefix_len(12, 1, 10), 2);
    assert_eq!(pages.get_run(12, 3, 10).len(), 3);
    pages.invalidate_range(12, 4 * 4096, 5 * 4096);
    assert_eq!(pages.get(CleanPageKey { ino: 12, page_idx: 4 }), None);
    pages.invalidate_ino(12);
    assert_eq!(pages.get_run(12, 3, 10).len(), 0);
    assert_eq!(clean_page_cache_limit(0), 2048);
    assert_eq!(clean_page_cache_limit(usize::MAX), 65536);
    assert_eq!(clean_page_cache_limit(32 * 3000), 3000);
    let key = clean_page_key(12, 8193);
    assert_eq!((key.ino, key.page_idx), (12, 2));
}

#[test]
fn images_of_programs() {
    let mut images = ImageCache::new();
    assert_eq!(images.get(12), None);
    images.insert(12, vec![1, 2]);
    assert_eq!(images.get(12), Some(vec![1, 2]));
    images.invalidate(12);
    assert_eq!(images.get(12), None);
}

#[test]
fn names_that_are_known_to_be_missing() {
    let mut paths = PathCache::new();
    paths.cache_negative_path("/a/b");
    paths.cache_negative_path("/c");
    paths.invalidate_path_cache("/a");
    assert!(!paths.missing.contains_key("/a/b"));
    assert!(paths.missing.contains_key("/c"));
}

#[test]
fn blocks_of_extents() {
    assert_eq!(extent_pblock_for_read(10, 4, 1000, 12), Some(1002));
    assert_eq!(extent_pblock_for_read(10, 4, 1000, 14), None);
    assert_eq!(block_position(3), Some(12288));
    assert_eq!(block_position(u64::MAX), None);
    assert_eq!(run_lookahead(4096 * 3, 1), 2);
    assert_eq!(run_length(50, &vec![Some(51), Some(52), None], 10), 3);
    assert_eq!(run_length(50, &vec![Some(60)], 10), 1);
}

#[test]
fn reading_by_blocks() {
    let blocks = vec![Some(vec![1u8; 4096]), None];
    let mut buf = [9u8; 10];
    assert_eq!(extent_aware_read_at(4091, &mut buf, 5000, &blocks), Ok(10));
    assert_eq!(buf, [1, 1, 1, 1, 1, 0, 0, 0, 0, 0]);
    assert_eq!(extent_aware_read_at(4998, &mut buf, 5000, &vec![None]), Ok(2));
    let page = fill_clean_page_frame(100, 0, &Some(vec![7u8; 4096])).unwrap();
    assert!(page[..100].iter().all(|b| *b == 7));
    assert!(page[100..].iter().all(|b| *b == 0));
}

#[test]
fn an_open_file_outlives_its_name() {
    let mut vol = volume();
    vol.open_regular_ino(12);
    assert!(vol.has_open_regular_ref(12));
    let unlinking = vol.unlink_non_dir("/f").unwrap();
    assert!(unlinking.delayed);
    assert!(!unlinking.frees());
    vol.entry_unlinked(&unlinking);
    assert!(vol.close_regular_ino(12));
    assert!(!vol.has_open_regular_ref(12));
    let gone = finish_unlinked_regular(&inode(0x81a4, 5, 1), 40);
    assert_eq!((gone.links, gone.dtime), (0, 40));
}

#[test]
fn a_closed_file_goes_with_its_name() {
    let mut vol = volume();
    let unlinking = vol.unlink_non_dir("/f").unwrap();
    assert!(unlinking.frees());
    let (parent, child) = unlinking.inodes_after(&inode(0x41ed, 0, 3), &inode(0x81a4, 5, 1), 40);
    assert_eq!((parent.mtime, child.links, child.dtime), (40, 0, 40));
    assert!(matches!(vol.unlink_non_dir("/d"), Err(Fault::Sys(SysErrNo::EISDIR))));
}

#[test]
fn writes_to_a_volume_wait_for_the_disk() {
    let mut vol = volume();
    assert!(vol.ext4_write_at(12, 0, b"J", &[], 50).is_err());
    vol.ensure_regular_cache(12, &inode(0x81a4, 5, 1), Some(b"hello".to_vec()));
    assert!(vol.is_regular_cached(12));
    assert!(matches!(vol.ext4_write_at(12, 0, b"J", &[], 50), Ok(1)));
    assert!(vol.is_regular_cache_dirty(12));
    let mut buf = [0u8; 5];
    assert!(matches!(vol.ext4_read_at(12, 0, &mut buf, &[]), Ok(5)));
    assert_eq!(&buf, b"Jello");
    assert_eq!(vol.dirty_files(), vec![12]);
    match vol.flush_cached_ino(12, &[]) {
        FlushStep::Write(snapshot) => {
            assert_eq!(snapshot.data, b"J".to_vec());
            vol.snapshot_applied(12);
            vol.finish_writeback_snapshot(&snapshot, Ok(()));
        }
        _ => panic!("nothing to write"),
    }
    assert!(!vol.is_regular_cache_dirty(12));
    assert_eq!(vol.flush_all_cached(None), Ok(()));
    assert_eq!(vol.flush_all_cached(Some(SysErrNo::EIO)), Err(SysErrNo::EIO));
}

#[test]
fn lengths_on_a_volume() {
    let mut vol = volume();
    assert!(matches!(vol.truncate_regular_ino(12, 3, 50), Ok(TruncateWork::Shrink)));
    assert!(matches!(vol.truncate_regular_ino(12, 9, 50), Ok(TruncateWork::Grow)));
    assert!(matches!(vol.regular_file_size(12), Ok(5)));
    assert!(matches!(vol.metadata("/d/g"), Ok(m) if m.size == 7));
    assert_eq!(checked_file_end(5, 6), Ok(11));
    assert_eq!(checked_file_end(usize::MAX, 1), Err(SysErrNo::EFBIG));
}

#[test]
fn reading_asks_for_pages() {
    let mut vol = volume();
    let mut buf = [0u8; 5];
    assert!(matches!(
        vol.ext4_read_at(12, 0, &mut buf, &[]),
        Err(ReadFault::NeedPage(0))
    ));
    let mut page = vec![0u8; 4096];
    page[..5].copy_from_slice(b"hello");
    vol.install_page(12, 0, page, 1 << 20);
    assert!(matches!(vol.ext4_read_at(12, 0, &mut buf, &[]), Ok(5)));
    assert_eq!(&buf, b"hello");
    assert!(matches!(
        vol.slurp_regular_file("/f"),
        Ok(Some(ImageSource::Disk(12, 5)))
    ));
    assert!(matches!(vol.slurp_regular_file("/none"), Ok(None)));
}

#[test]
fn volumes_are_told_by_a_number() {
    let mut block = vec![0u8; 4096];
    assert!(!check_superblock(&block));
    block[0x438] = 0x53;
    block[0x439] = 0xef;
    assert!(check_superblock(&block));
    let mut vol = Ext4Volume::new();
    assert!(vol.mount_block_device(&block));
    assert!(vol.names.is_ext4_mounted());
    let told = vol.statfs_info(4096, 100, 40, 50, 20).unwrap();
    assert_eq!((told.block_size, told.free_blocks, told.max_name_len), (4096, 40, 255));
    vol.unmount_root();
    assert!(!vol.names.is_ext4_mounted());
    assert!(vol.statfs_info(4096, 100, 40, 50, 20).is_none());
}

#[test]
fn the_worker_starts_once() {
    let mut worker = WritebackWorker { started: false };
    assert!(worker.start_writeback_worker_explicit());
    assert!(!worker.start_writeback_worker_explicit());
}

#[test]
fn long_files_are_written_in_the_background() {
    let mut vol = volume();
    let long = vec![3u8; 300_000];
    vol.ensure_regular_cache(12, &inode(0x81a4, 300_000, 1), Some(long));
    assert!(matches!(vol.ext4_write_at(12, 9, b"J", &[], 50), Ok(1)));
    assert_eq!(vol.take_queued_writeback(), Some(12));
    assert_eq!(vol.take_queued_writeback(), None);
    let snapshot = match vol.drain_queued_writeback_ino(12, &[]) {
        DrainStep::Write(snapshot) => snapshot,
        _ => panic!("nothing to write"),
    };
    assert!(matches!(vol.drain_queued_writeback_ino(12, &[]), DrainStep::Later));
    assert_eq!(vol.take_queued_writeback(), Some(12));
    assert!(!vol.finish_writeback_snapshot(&snapshot, Err(SysErrNo::EIO)));
    assert!(matches!(
        vol.drain_queued_writeback_ino(12, &[]),
        DrainStep::Failed(SysErrNo::EIO)
    ));
    assert!(matches!(vol.drain_queued_writeback_ino(13, &[]), DrainStep::Done));
}

#[test]
fn names_of_nodes_on_a_volume() {
    let mut names = names();
    assert_eq!(names.ext4_file_path_exists("/l"), Ok(true));
    let all = names.ext4_list_all_file_paths().unwrap();
    assert!(all.contains(&"/f".to_string()));
    let entry = names.create_regular_ext4("/x", &Credentials::root()).unwrap();
    assert_eq!(entry.mode, 0x81b6);
    assert!(matches!(names.exchange_ext4("/f", "/f"), Ok(None)));
    assert!(matches!(names.exchange_ext4("/f", "/d/g"), Ok(Some(_))));
    assert_eq!(names.exchange_ext4("/f", "/no"), Err(Fault::Sys(SysErrNo::ENOENT)));
    let mut vol = volume();
    assert_eq!(vol.file_flags_by_ino(12), Ok(0));
    assert!(vol.unlink_regular_file("/f").is_ok());
}

#[test]
fn pages_for_mappings() {
    let mut vol = volume();
    assert!(vol.can_use_clean_page_cache(12));
    assert_eq!(vol.clean_page_cache_frame(12, 0), Err(Ok(0)));
    let mapped = vec![Some(7), Some(9), None];
    assert_eq!(vol.prefetch_offsets(12, 0, 4, 5, &mapped), Vec::<usize>::new());
    assert_eq!(vol.prefetch_offsets(12, 0, 4, 20_000, &mapped), vec![7 * 4096, 9 * 4096]);
    let blocks = vec![vec![5u8; 4096], vec![6u8; 4096]];
    assert_eq!(vol.prefetched(13, 0, 2, 5_000, blocks, 1 << 20), Ok(()));
    let second = vol.clean_page_cache_frame(13, 4096).unwrap_or_default();
    assert!(second[..904].iter().all(|b| *b == 6));
    assert!(second[904..].iter().all(|b| *b == 0));
    assert_eq!(
        vol.prefetched(12, 0, 1, 5_000, vec![vec![5u8; 100]], 1 << 20),
        Err(SysErrNo::EIO)
    );
    vol.install_page(12, 0, vec![1u8; 4096], 1 << 20);
    assert_eq!(vol.clean_page_cache_frame(12, 0), Ok(vec![1u8; 4096]));
    let (files, _, _) = vol.diagnostic_regular_cache_stats();
    assert_eq!(files, 0);
}

fn raw(name: &str, ino: u32, type_byte: u8, used: bool, inode_is_dir: bool) -> RawEntry {
    RawEntry { name: name.to_string(), ino, type_byte, used, inode_is_dir }
}

#[test]
fn tables_of_directories() {
    let entries = vec![
        raw(".", 2, DIRENT_DIR, true, false),
        raw("..", 2, DIRENT_DIR, true, false),
        raw("gone", 20, DIRENT_DIR, false, false),
        raw("d", 11, DIRENT_DIR, true, false),
        raw("u", 15, DIRENT_UNKNOWN, true, true),
        raw("f", 12, 1, true, false),
        raw("f", 13, 1, true, false),
    ];
    let table = dir_table(&entries);
    assert_eq!(table.get("."), None);
    assert_eq!(table.get(".."), None);
    assert_eq!(table.get("gone"), None);
    assert_eq!(table.get("d"), Some(&child(11, true)));
    assert_eq!(table.get("u"), Some(&child(15, true)));
    assert_eq!(table.get("f"), Some(&child(13, false)));
    let mut names = names();
    names.install_raw_dir(11, &entries);
    assert_eq!(
        names.ext4_list_dir("/d").unwrap(),
        vec![("d".to_string(), true), ("f".to_string(), false), ("u".to_string(), true)]
    );
}

#[test]
fn only_regular_files_are_listed() {
    let mut names = names();
    assert_eq!(
        names.ext4_list_all_file_paths(),
        Ok(vec!["/d/g".to_string(), "/f".to_string()])
    );
    let mut dir = TextMap::new();
    dir.insert("h".to_string(), child(16, false));
    names.install_dir(11, dir);
    assert_eq!(names.ext4_list_all_file_paths(), Err(Load::Inode(16)));
    names.install_inode(16, inode(0x11a4, 0, 1));
    assert_eq!(names.ext4_list_all_file_paths(), Ok(vec!["/f".to_string()]));
}

#[test]
fn a_lookup_is_remembered() {
    let mut names = names();
    assert_eq!(names.lookup_kind("/d/../d/g"), Ok(Some((13, Ext4NodeKind::Regular))));
    assert_eq!(names.paths.found.get("/d/g"), Some(&(13, Ext4NodeKind::Regular)));
    assert_eq!(names.lookup_kind("/none"), Ok(None));
    assert!(names.paths.missing.contains_key("/none"));
    assert_eq!(names.lookup("/d/g"), Ok(Some((13, Ext4NodeKind::Regular))));
}

#[test]
fn a_cut_file_has_a_new_image() {
    let mut vol = volume();
    vol.images.insert(12, b"hello".to_vec());
    assert!(matches!(
        vol.slurp_regular_file("/f"),
        Ok(Some(ImageSource::Ready(b))) if b == b"hello".to_vec()
    ));
    assert!(matches!(vol.truncate_regular_ino(12, 2, 50), Ok(TruncateWork::Shrink)));
    assert!(matches!(vol.slurp_regular_file("/f"), Ok(Some(ImageSource::Disk(12, _)))));
    vol.images.insert(12, b"hello".to_vec());
    vol.regular_truncated(12, TruncateWork::Shrink, Ext4NodeKind::Regular, 2, 50);
    assert!(matches!(vol.slurp_regular_file("/f"), Ok(Some(ImageSource::Disk(12, _))) | Err(_)));
    vol.images.insert(12, b"hello".to_vec());
    vol.clear_all_caches();
    assert_eq!(vol.images.get(12), None);
}

#[test]
fn a_file_held_in_memory_is_cut() {
    let mut vol = volume();
    vol.ensure_regular_cache(12, &inode(0x81a4, 5, 1), Some(b"hello".to_vec()));
    vol.images.insert(12, b"hello".to_vec());
    assert!(matches!(vol.truncate_regular_ino(12, 2, 50), Ok(TruncateWork::Cached)));
    assert_eq!(vol.images.get(12), None);
    assert!(matches!(vol.slurp_regular_file("/f"), Ok(Some(ImageSource::Memory(12)))));
    assert_eq!(vol.cached_regular_snapshot(12, &[]), Some(b"he".to_vec()));
}

#[test]
fn nothing_written_back_completes_nothing() {
    let mut dirty = PageCacheDirtyModel::clean();
    dirty.mark_dirty_range(100, 10, 20);
    dirty.note_queued();
    let seq = dirty.begin_writeback().unwrap();
    assert!(dirty.finish_writeback(seq, Some(DirtyRange { start: 15, end: 15 }), false));
    assert_eq!(dirty.ranges, vec![DirtyRange { start: 10, end: 20 }]);
}

#[test]
fn closings_are_counted() {
    let mut vol = volume();
    assert!(!vol.close_regular_ino(12));
    vol.open_regular_ino(12);
    vol.open_regular_ino(12);
    let unlinking = vol.unlink_non_dir("/f").unwrap();
    vol.entry_unlinked(&unlinking);
    assert!(!vol.close_regular_ino(12));
    assert!(vol.has_open_regular_ref(12));
    assert!(vol.close_regular_ino(12));
    assert!(!vol.has_open_regular_ref(12));
    assert!(!vol.close_regular_ino(12));
}

#[test]
fn a_read_past_the_end_leaves_the_buffer() {
    let mut vol = volume();
    vol.ensure_regular_cache(12, &inode(0x81a4, 5, 1), Some(b"hello".to_vec()));
    let mut buf = [7u8; 3];
    assert!(matches!(vol.ext4_read_at(12, 5, &mut buf, &[]), Ok(0)));
    assert_eq!(buf, [7; 3]);
}

// Carries out on the tables what a movement says.
fn carry_out(names: &mut Ext4Names, from: &str, to: &str) {
    let m = match names.rename_ext4(from, to, true) {
        Ok(RenameStep::Move(m)) => m,
        _ => panic!("no movement"),
    };
    let mut tables: Vec<(u32, Vec<RawEntry>)> = Vec::new();
    for (ino, path) in [(2, "/"), (11, "/d")] {
        let mut entries: Vec<RawEntry> = names
            .ext4_list_dir_by_ino(ino)
            .unwrap()
            .iter()
            .map(|(i, n, is_dir)| raw(n, *i, if *is_dir { DIRENT_DIR } else { 1 }, true, false))
            .collect();
        assert_eq!(names.lookup(path), Ok(Some((ino, Ext4NodeKind::Directory))));
        if m.from.parent_ino == ino {
            entries.retain(|e| e.name != m.from.name);
        }
        if m.to.parent_ino == ino {
            entries.push(raw(&m.to.name, m.child_ino, 1, true, false));
        }
        tables.push((ino, entries));
    }
    names.invalidate_namespace_entry(m.from.parent_ino, from);
    names.invalidate_namespace_entry(m.to.parent_ino, to);
    for (ino, entries) in &tables {
        names.install_raw_dir(*ino, entries);
        names.install_inode(*ino, inode(0x41ed, 4096, 2));
    }
}

fn exchange(names: &mut Ext4Names, a: &str, b: &str) {
    let temp = names.exchange_ext4(a, b).unwrap().unwrap();
    let mut stage = ExchangeStage::FirstAway;
    while let Some((from, to)) = stage.renaming(a, b, &temp) {
        carry_out(names, &from, &to);
        stage = stage.next(Ok(()));
    }
    assert_eq!(stage, ExchangeStage::Ended(Ok(())));
    assert_eq!(names.lookup(&temp), Ok(None));
}

#[test]
fn exchanged_twice_is_not_exchanged() {
    let mut names = names();
    assert_eq!(
        names.exchange_ext4("/f", "/d/g"),
        Ok(Some("/.wll_rename_exchange_12_13_0".to_string()))
    );
    exchange(&mut names, "/f", "/d/g");
    assert_eq!(names.lookup("/f"), Ok(Some((13, Ext4NodeKind::Regular))));
    assert_eq!(names.lookup("/d/g"), Ok(Some((12, Ext4NodeKind::Regular))));
    exchange(&mut names, "/f", "/d/g");
    assert_eq!(names.lookup("/f"), Ok(Some((12, Ext4NodeKind::Regular))));
    assert_eq!(names.lookup("/d/g"), Ok(Some((13, Ext4NodeKind::Regular))));
}

#[test]
fn a_renamed_node_is_found_under_its_new_name() {
    let mut names = names();
    carry_out(&mut names, "/f", "/d/h");
    assert_eq!(names.lookup("/f"), Ok(None));
    assert_eq!(names.lookup("/d/h"), Ok(Some((12, Ext4NodeKind::Regular))));
    assert_eq!(names.lookup("/d/g"), Ok(Some((13, Ext4NodeKind::Regular))));
}

#[test]
fn times_that_wait_for_the_disk() {
    let mut vol = volume();
    assert_eq!(vol.timed_files(), Vec::<u32>::new());
    vol.uncached_regular_written(13, 0, 4, 60);
    vol.uncached_regular_written(12, 0, 4, 70);
    assert_eq!(vol.timed_files(), vec![12, 13]);
    assert_eq!(vol.dirty_files(), Vec::<u32>::new());
    let times = vol.time_override(12).unwrap();
    assert_eq!((times.mtime, times.ctime), (70, 70));
    vol.flush_time_override(12, times);
    assert_eq!(vol.timed_files(), vec![13]);
}

#[test]
fn runs_reach_as_far_as_blocks_follow() {
    let mut vol = volume();
    let mapped = vec![Some(100), Some(101), Some(102), Some(200)];
    assert_eq!(vol.cached_pblock_for_clean_read(12, 5, 9, &mapped), Some(100));
    assert_eq!(vol.runs.get(12, 7), Some(102));
    assert_eq!(vol.runs.get(12, 8), None);
    assert_eq!(vol.cached_pblock_for_clean_read(12, 0, 2, &mapped), Some(100));
    assert_eq!(vol.runs.get(12, 1), Some(101));
    assert_eq!(vol.runs.get(12, 2), None);
}

#[test]
fn mapped_pages_stay_cached() {
    let mut vol = volume();
    vol.install_page(12, 0, vec![1u8; 4096], 1 << 20);
    vol.install_page(13, 0, vec![2u8; 4096], 1 << 20);
    assert!(matches!(
        vol.clean_page_cache_frames(12, 0, 1, 1, None),
        Ok(FramesStep::Ready(frames)) if frames == vec![vec![1u8; 4096]]
    ));
    assert_eq!(vol.clean_page_cache_frame(12, 0), Ok(vec![1u8; 4096]));
    assert_eq!(vol.clean_page_cache_frame(13, 0), Ok(vec![2u8; 4096]));
}

#[test]
fn a_file_is_written_back_in_clusters() {
    let long = vec![3u8; 3_000_000];
    let mut file = CachedRegularFile::new(
        long.len(),
        0,
        Some(long.clone()),
        PageCacheDirtyModel::dirty_whole_file(),
        1,
        2,
        3,
        4,
    );
    let mut disk = Vec::new();
    let mut rounds = 0;
    loop {
        let snapshot = match file.take_writeback_snapshot(12, &[]) {
            WritebackSnapshotResult::Snapshot(s) => s,
            WritebackSnapshotResult::Clean => break,
            _ => panic!("somebody has to wait"),
        };
        assert_eq!(file.dirty.writeback, PageCacheWritebackState::Writeback);
        assert!(matches!(file.take_writeback_snapshot(12, &[]), WritebackSnapshotResult::Busy));
        assert_eq!(file.dirty.writeback, PageCacheWritebackState::Writeback);
        disk.extend(snapshot.data.clone());
        let more = file.finish_writeback_snapshot(&snapshot, Ok(()));
        let state =
            if more { PageCacheWritebackState::Dirty } else { PageCacheWritebackState::Clean };
        assert_eq!((file.dirty.writeback, file.dirty.seq), (state, 1));
        rounds += 1;
    }
    assert!(rounds > 1);
    assert_eq!(disk, long);
    assert_eq!(file.dirty.writeback, PageCacheWritebackState::Clean);
    assert_eq!((file.mtime_sec, file.mtime_extra), (1, 2));
    assert_eq!((file.ctime_sec, file.ctime_extra), (3, 4));
}

#[test]
fn a_failed_writeback_is_not_under_way() {
    let mut file = clean_file(b"hello");
    assert_eq!(file.cached_regular_write(0, b"J", &[], 9), Ok(1));
    let snapshot = match file.take_writeback_snapshot(12, &[]) {
        WritebackSnapshotResult::Snapshot(s) => s,
        _ => panic!("nothing to write"),
    };
    assert_eq!(file.cached_regular_write(1, b"E", &[], 10), Ok(1));
    assert_eq!(file.dirty.writeback, PageCacheWritebackState::DirtyDuringWriteback);
    assert!(!file.finish_writeback_snapshot(&snapshot, Err(SysErrNo::EIO)));
    assert_eq!(file.dirty.writeback, PageCacheWritebackState::Dirty);
    assert_eq!(file.dirty.last_error, Some(SysErrNo::EIO));
    assert_eq!(file.dirty.ranges, vec![DirtyRange { start: 0, end: 2 }]);
    assert!(file.acknowledge_writeback_error(SysErrNo::EIO));
    let snapshot = match file.take_writeback_snapshot(12, &[]) {
        WritebackSnapshotResult::Snapshot(s) => s,
        _ => panic!("nothing to write"),
    };
    assert_eq!(snapshot.data, b"JE".to_vec());
    assert!(!file.finish_writeback_snapshot(&snapshot, Ok(())));
    assert_eq!(file.dirty.writeback, PageCacheWritebackState::Clean);
    assert!(matches!(file.take_writeback_snapshot(12, &[]), WritebackSnapshotResult::Clean));
    assert_eq!(file.dirty.writeback, PageCacheWritebackState::Clean);
}

#[test]
fn a_file_that_was_emptied_is_fresh() {
    let mut vol = volume();
    vol.cache_empty_regular(12, true, 40);
    let file = vol.regular.get(12).unwrap();
    assert_eq!(file.dirty.writeback, PageCacheWritebackState::Dirty);
    assert!(file.dirty.full_dirty && file.dirty.size_dirty);
    assert_eq!((file.dirty.seq, file.dirty.last_error, file.dirty.ranges.len()), (1, None, 0));
    assert_eq!((file.size, file.persisted_size, file.mtime_sec), (0, 0, 40));
    vol.cache_empty_regular(12, false, 41);
    let file = vol.regular.get(12).unwrap();
    assert_eq!(file.dirty.writeback, PageCacheWritebackState::Clean);
    assert!(!file.is_dirty());
    assert_eq!(file.dirty.seq, 0);
}

#[test]
fn a_failed_write_changes_nothing() {
    let mut file = CachedRegularFile::new(
        10_000,
        10_000,
        None,
        PageCacheDirtyModel::clean(),
        1,
        2,
        3,
        4,
    );
    assert_eq!(file.cached_regular_write(5000, b"ab", &[], 7), Err(SysErrNo::EIO));
    assert_eq!((file.mtime_sec, file.mtime_extra), (1, 2));
    assert_eq!((file.ctime_sec, file.ctime_extra), (3, 4));
    assert!(!file.is_dirty());
    assert_eq!(file.dirty.writeback, PageCacheWritebackState::Clean);
}

#[test]
fn a_read_asks_for_the_first_missing_page() {
    let mut vol = volume();
    vol.names.install_inode(12, inode(0x81a4, 12_288, 1));
    vol.install_page(12, 0, vec![1u8; 4096], 1 << 20);
    let mut buf = vec![9u8; 12_288];
    assert!(matches!(
        vol.ext4_read_at(12, 0, &mut buf, &[]),
        Err(ReadFault::NeedPage(1))
    ));
    assert!(buf[..4096].iter().all(|b| *b == 1));
    assert!(buf[4096..].iter().all(|b| *b == 9));
}
