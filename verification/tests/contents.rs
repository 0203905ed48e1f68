use wll_os::fs::content::{MemFileContent, MEM_FILE_INLINE_LIMIT};
use wll_os::fs::node::{chown_mode_after_owner_update, FileTimes, MemNodeMetadata};
use wll_os::task::{Credentials, Timestamp};

fn user() -> Credentials {
    Credentials {
        real_uid: 7,
        effective_uid: 7,
        fsuid: 7,
        real_gid: 8,
        effective_gid: 8,
        fsgid: 8,
        groups: vec![20],
        root_capable: false,
    }
}

#[test]
fn a_write_is_read_back() {
    let mut content = MemFileContent::new();
    assert_eq!(content.write_at(3, b"abc"), 6);
    let mut buf = [9u8; 8];
    assert_eq!(content.read_at(0, &mut buf), 6);
    assert_eq!(&buf, b"\0\0\0abc\x09\x09");
    assert_eq!(content.read_at(6, &mut buf), 0);
}

#[test]
fn a_write_ends_the_contents() {
    let mut content = MemFileContent::from_slice(b"abcdef");
    assert_eq!(content.write_at(1, b"XY"), 3);
    assert_eq!(content.to_vec(), b"aXY".to_vec());
}

#[test]
fn long_contents_come_in_pieces() {
    let mut content = MemFileContent::from_slice(b"start");
    let end = MEM_FILE_INLINE_LIMIT + 70_000;
    assert_eq!(content.write_at(end, b"end"), end + 3);
    assert!(matches!(content, MemFileContent::Chunked { .. }));
    assert_eq!(content.len(), end + 3);
    let all = content.to_vec();
    assert_eq!(&all[..5], b"start");
    assert_eq!(&all[end..], b"end");
    assert!(all[5..end].iter().all(|b| *b == 0));
    let copy = content.clone();
    assert_eq!(copy.to_vec(), all);
}

#[test]
fn growing_and_cutting_back() {
    let mut content = MemFileContent::from_slice(b"abc");
    content.resize(MEM_FILE_INLINE_LIMIT + 1);
    content.resize(3);
    assert_eq!(content.to_vec(), b"abc".to_vec());
    content.clear();
    assert_eq!(content.len(), 0);
}

#[test]
fn images_are_told_by_their_first_bytes() {
    assert!(MemFileContent::from_slice(b"\x7fELF\x02").is_elf_image());
    assert!(!MemFileContent::from_slice(b"\x7fEL").is_elf_image());
    assert!(!MemFileContent::from_slice(b"#!/bin/sh").is_elf_image());
}

#[test]
fn a_new_owner_takes_rights_away() {
    assert_eq!(chown_mode_after_owner_update(0o6755, true, true), 0o0755);
    assert_eq!(chown_mode_after_owner_update(0o6745, true, true), 0o2745);
    assert_eq!(chown_mode_after_owner_update(0o6755, false, true), 0o6755);
    assert_eq!(chown_mode_after_owner_update(0o6755, true, false), 0o6755);
}

#[test]
fn children_of_directories_that_hand_their_group_on() {
    let parent = MemNodeMetadata { mode: 0o2755, uid: 1, gid: 30, ino: 5, flags: 0 };
    let dir = MemNodeMetadata::new_child_for_current(&user(), Some(parent), 0o755, true);
    assert_eq!((dir.mode, dir.uid, dir.gid), (0o2755, 7, 30));
    let file = MemNodeMetadata::new_child_for_current(&user(), Some(parent), 0o2755, false);
    assert_eq!((file.mode, file.uid, file.gid), (0o755, 7, 30));
    let in_group = MemNodeMetadata { gid: 20, ..parent };
    let file = MemNodeMetadata::new_child_for_current(&user(), Some(in_group), 0o2755, false);
    assert_eq!((file.mode, file.gid), (0o2755, 20));
    let plain = MemNodeMetadata::new_child_for_current(&user(), None, 0o644, false);
    assert_eq!((plain.mode, plain.gid), (0o644, 8));
}

#[test]
fn times_of_a_file() {
    let mut times = FileTimes::now(Timestamp::from_timeval(3, 5));
    assert_eq!((times.atime_sec, times.atime_nsec), (3, 5000));
    times.touch_modified(Timestamp { sec: 9, nsec: 1 });
    assert_eq!((times.atime_sec, times.mtime_sec, times.ctime_sec), (3, 9, 9));
    times.set_access_modify(Some((1, 2)), None, Timestamp { sec: 11, nsec: 0 });
    assert_eq!((times.atime_sec, times.atime_nsec, times.mtime_sec, times.ctime_sec), (1, 2, 9, 11));
}

#[test]
fn groups_of_a_task() {
    let cred = user();
    assert!(cred.is_in_group(8, true));
    assert!(cred.is_in_group(20, false));
    assert!(!cred.is_in_group(21, true));
    assert!(cred.is_in_filesystem_group(8));
    assert!(Credentials::root().is_root_capable());
}
