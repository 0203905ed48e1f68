use wll_os::errno::SysErrNo;
use wll_os::fs::memfs::setup::applet_links;
use wll_os::fs::memfs::store::MemFileSystem;
use wll_os::fs::node::{MemNodeMetadata, MemSpecialKind};
use wll_os::task::{Caller, Credentials, Timestamp};

fn caller() -> Caller {
    Caller { cred: Credentials::root(), now: Timestamp { sec: 100, nsec: 5 } }
}

fn contents(fs: &MemFileSystem, name: &str) -> Vec<u8> {
    fs.get_file(name).unwrap().to_vec(fs)
}

#[test]
fn an_added_file_is_found() {
    let mut fs = MemFileSystem::new();
    fs.add_file(&caller(), "/a/b", b"text".to_vec());
    assert_eq!(contents(&fs, "/a/./b"), b"text".to_vec());
    assert!(fs.is_dir("/a"));
    assert!(fs.node_exists("/a/b"));
    assert_eq!(fs.metadata("/a/b").unwrap().mode, 0o666);
    fs.add_file(&caller(), "/x", b"\x7fELF".to_vec());
    assert_eq!(fs.metadata("/x").unwrap().mode, 0o777);
    assert!(fs.get_file("/x").unwrap().is_elf_image(&fs));
}

#[test]
fn inode_numbers_differ() {
    let mut fs = MemFileSystem::new();
    fs.add_file(&caller(), "/a", Vec::new());
    fs.add_file(&caller(), "/b", Vec::new());
    assert_eq!(fs.inode("/"), Some(1));
    assert_eq!(fs.inode("/a"), Some(2));
    assert_eq!(fs.inode("/b"), Some(3));
    assert_eq!(fs.inode("/c"), None);
}

#[test]
fn writes_reach_all_names_of_a_file() {
    let mut fs = MemFileSystem::new();
    fs.add_file(&caller(), "/a", b"one".to_vec());
    assert_eq!(fs.link_path("/a", "/b"), Ok(()));
    assert_eq!(fs.file_link_count("/a"), 2);
    assert_eq!(fs.write_file_at(&caller(), "/b", 0, b"two!"), Ok(4));
    assert_eq!(contents(&fs, "/a"), b"two!".to_vec());
    assert_eq!(fs.inode("/a"), fs.inode("/b"));
    assert_eq!(fs.link_path("/a", "/b"), Err(SysErrNo::EEXIST));
    assert_eq!(fs.link_path("/", "/c"), Err(SysErrNo::EPERM));
    assert_eq!(fs.link_path("/none", "/c"), Err(SysErrNo::ENOENT));
    assert_eq!(fs.link_path("/a", "/none/c"), Err(SysErrNo::ENOENT));
}

#[test]
fn a_removed_file_is_gone() {
    let mut fs = MemFileSystem::new();
    fs.add_file(&caller(), "/a", b"one".to_vec());
    assert_eq!(fs.remove_file("/a"), Ok(()));
    assert!(!fs.node_exists("/a"));
    assert_eq!(fs.remove_file("/a"), Err(SysErrNo::ENOENT));
}

#[test]
fn directories_are_removed_when_empty() {
    let mut fs = MemFileSystem::new();
    fs.add_file(&caller(), "/d/f", Vec::new());
    assert_eq!(fs.remove_dir("/d"), Err(SysErrNo::ENOTEMPTY));
    assert_eq!(fs.remove_dir("/"), Err(SysErrNo::EINVAL));
    assert_eq!(fs.remove_dir("/e"), Err(SysErrNo::ENOENT));
    assert_eq!(fs.remove_file("/d/f"), Ok(()));
    assert_eq!(fs.remove_dir("/d"), Ok(()));
    assert!(!fs.is_dir("/d"));
}

#[test]
fn a_renamed_file_keeps_its_contents() {
    let mut fs = MemFileSystem::new();
    fs.add_file(&caller(), "/a", b"one".to_vec());
    fs.add_file(&caller(), "/b", b"two".to_vec());
    assert_eq!(fs.rename_path("/a", "/b"), Ok(()));
    assert!(!fs.node_exists("/a"));
    assert_eq!(contents(&fs, "/b"), b"one".to_vec());
    assert_eq!(fs.rename_path("/a", "/c"), Err(SysErrNo::ENOENT));
    assert_eq!(fs.rename_path("/", "/c"), Err(SysErrNo::EINVAL));
    assert_eq!(fs.rename_path("/b", "/none/c"), Err(SysErrNo::ENOENT));
}

#[test]
fn a_renamed_directory_takes_its_tree_along() {
    let mut fs = MemFileSystem::new();
    fs.add_file(&caller(), "/d/e/f", b"deep".to_vec());
    fs.add_dir(&caller(), "/full/x");
    assert_eq!(fs.rename_path("/d", "/d/e/g"), Err(SysErrNo::EINVAL));
    assert_eq!(fs.rename_path("/d", "/full"), Err(SysErrNo::ENOTEMPTY));
    assert_eq!(fs.rename_path("/d", "/n"), Ok(()));
    assert_eq!(contents(&fs, "/n/e/f"), b"deep".to_vec());
    assert!(!fs.is_dir("/d/e"));
    fs.add_file(&caller(), "/file", Vec::new());
    assert_eq!(fs.rename_path("/n", "/file"), Err(SysErrNo::ENOTDIR));
    assert_eq!(fs.rename_path("/file", "/n"), Err(SysErrNo::EISDIR));
}

#[test]
fn two_nodes_change_places() {
    let mut fs = MemFileSystem::new();
    fs.add_file(&caller(), "/a", b"one".to_vec());
    fs.add_file(&caller(), "/b", b"two".to_vec());
    assert_eq!(fs.exchange_path("/a", "/b"), Ok(()));
    assert_eq!(contents(&fs, "/a"), b"two".to_vec());
    assert_eq!(contents(&fs, "/b"), b"one".to_vec());
    assert_eq!(fs.exchange_path("/a", "/none"), Err(SysErrNo::ENOENT));
    assert_eq!(fs.exchange_path("/a", "/"), Err(SysErrNo::EINVAL));
    fs.add_dir(&caller(), "/d/e");
    assert_eq!(fs.exchange_path("/d", "/d/e"), Err(SysErrNo::EINVAL));
}

#[test]
fn links_and_special_nodes() {
    let mut fs = MemFileSystem::new();
    assert_eq!(fs.add_symlink(&caller(), "/l", "to/there"), Ok(()));
    assert_eq!(fs.get_symlink("/l"), Some("to/there".to_string()));
    assert_eq!(fs.add_symlink(&caller(), "/l", "x"), Err(SysErrNo::EEXIST));
    assert_eq!(fs.add_symlink(&caller(), "/no/l", "x"), Err(SysErrNo::ENOENT));
    let kind = MemSpecialKind::CharDevice { major: 1, minor: 3 };
    assert_eq!(fs.add_special_with_mode(&caller(), "/null", kind, 0o600), Ok(()));
    assert_eq!(fs.get_special("/null"), Some(kind));
    assert_eq!(fs.metadata("/null").unwrap().mode, 0o600);
    assert_eq!(fs.add_special_with_mode(&caller(), "/null", kind, 0o600), Err(SysErrNo::EEXIST));
}

#[test]
fn a_directory_lists_its_children_by_name() {
    let mut fs = MemFileSystem::new();
    fs.add_file(&caller(), "/z", Vec::new());
    fs.add_file(&caller(), "/d/inner", Vec::new());
    assert_eq!(fs.add_symlink(&caller(), "/m", "z"), Ok(()));
    let listed: Vec<(String, bool)> =
        fs.list_dir("/").unwrap().into_iter().map(|e| (e.name, e.is_dir)).collect();
    assert_eq!(
        listed,
        vec![("d".to_string(), true), ("m".to_string(), false), ("z".to_string(), false)]
    );
    assert!(matches!(fs.list_dir("/z"), Err(SysErrNo::ENOTDIR)));
}

#[test]
fn attributes_are_read_back() {
    let mut fs = MemFileSystem::new();
    fs.add_file(&caller(), "/a", Vec::new());
    assert_eq!(fs.set_xattr(&caller(), "/a", "user.k", b"v", 0), Ok(()));
    assert_eq!(fs.get_xattr("/a", "user.k"), Ok(b"v".to_vec()));
    assert_eq!(fs.set_xattr(&caller(), "/a", "user.k", b"v", 1), Err(SysErrNo::EEXIST));
    assert_eq!(fs.set_xattr(&caller(), "/a", "user.j", b"v", 2), Err(SysErrNo::ENODATA));
    assert_eq!(fs.set_xattr(&caller(), "/a", "user.j", b"v", 3), Err(SysErrNo::EINVAL));
    assert_eq!(fs.set_xattr(&caller(), "/a", "", b"v", 0), Err(SysErrNo::ERANGE));
    assert_eq!(
        fs.set_xattr(&caller(), "/a", "user.j", &vec![0u8; 65537], 0),
        Err(SysErrNo::E2BIG)
    );
    assert_eq!(fs.list_xattr("/a"), Ok(b"user.k\0".to_vec()));
    assert_eq!(fs.remove_xattr(&caller(), "/a", "user.k"), Ok(()));
    assert_eq!(fs.get_xattr("/a", "user.k"), Err(SysErrNo::ENODATA));
    assert_eq!(fs.get_xattr("/none", "user.k"), Err(SysErrNo::ENOENT));
    assert_eq!(fs.add_symlink(&caller(), "/l", "a"), Ok(()));
    assert_eq!(fs.set_xattr(&caller(), "/l", "user.k", b"v", 0), Err(SysErrNo::EPERM));
}

#[test]
fn lengths_times_modes_and_owners() {
    let mut fs = MemFileSystem::new();
    fs.add_file(&caller(), "/a", b"abcdef".to_vec());
    assert_eq!(fs.truncate_file(&caller(), "/a", 2), Ok(()));
    assert_eq!(contents(&fs, "/a"), b"ab".to_vec());
    assert_eq!(fs.truncate_file(&caller(), "/none", 2), Err(SysErrNo::ENOENT));
    assert_eq!(fs.set_file_times(&caller(), "/a", Some((1, 2)), Some((3, 4))), Ok(()));
    let times = fs.get_file("/a").unwrap().times(&fs);
    assert_eq!((times.atime_sec, times.mtime_nsec, times.ctime_sec), (1, 4, 100));
    assert_eq!(fs.set_mode(&caller(), "/a", 0o6755), Ok(()));
    assert_eq!(fs.metadata("/a").unwrap().mode, 0o6755);
    assert_eq!(fs.set_owner(&caller(), "/a", Some(5), None), Ok(()));
    let meta = fs.metadata("/a").unwrap();
    assert_eq!((meta.mode, meta.uid, meta.gid), (0o755, 5, 0));
    assert_eq!(fs.set_file_flags("/a", 16), Ok(()));
    assert_eq!(fs.file_flags("/a"), Some(16));
}

#[test]
fn a_file_with_given_metadata() {
    let mut fs = MemFileSystem::new();
    fs.add_file(&caller(), "/a", b"x".to_vec());
    let (content, times) = fs.get_file("/a").unwrap().snapshot(&fs);
    let meta = MemNodeMetadata::new_with_ino(0o640, 77);
    assert_eq!(fs.add_file_with_metadata("/b", content, times, meta), Ok(()));
    assert_eq!(fs.inode("/b"), Some(77));
    let (content, times) = fs.get_file("/a").unwrap().snapshot(&fs);
    assert_eq!(fs.add_file_with_metadata("/b", content, times, meta), Err(SysErrNo::EEXIST));
}

#[test]
fn reading_at_an_offset() {
    let mut fs = MemFileSystem::new();
    fs.add_file(&caller(), "/a", b"abcdef".to_vec());
    let mut buf = [0u8; 4];
    assert_eq!(fs.read_file_at("/a", 4, &mut buf), Ok(2));
    assert_eq!(&buf, b"ef\0\0");
    assert_eq!(fs.read_file_at("/none", 0, &mut buf), Err(SysErrNo::ENOENT));
    assert_eq!(fs.write_file_at(&caller(), "/none", 0, b"x"), Err(SysErrNo::ENOENT));
    assert_eq!(fs.write_file_at(&caller(), "/a", usize::MAX / 2, b"x"), Err(SysErrNo::EFBIG));
    assert_eq!(fs.total_file_bytes(), 6);
}

#[test]
fn the_standard_tree() {
    let mut fs = MemFileSystem::new();
    fs.init_pseudo_files(&caller());
    assert!(fs.is_dir("/tmp"));
    assert!(fs.is_dir("/proc"));
    let hosts = contents(&fs, "/etc/nsswitch.conf");
    assert_eq!(hosts, b"passwd: files\ngroup: files\nshadow: files\n".to_vec());
    assert!(applet_links("").contains(&"/bin/ls".to_string()));
    fs.install_demo_script(&caller());
    fs.add_user_program(&caller(), "hello", b"\x7fELF");
    assert!(fs.list_file_names().len() > 3);
}
