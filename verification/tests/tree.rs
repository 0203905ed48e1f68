use wll_os::errno::SysErrNo;
use wll_os::fs::block_dev::device::RamDisk;
use wll_os::fs::ext4::mount::Ext4Volume;
use wll_os::fs::ext4::plans::RenameStep;
use wll_os::fs::ext4::types::{DiskInode, Ext4NodeKind};
use wll_os::fs::ext4::volume::{Fault, Load, RawEntry, DIRENT_DIR};
use wll_os::fs::fd::descriptor::{FileDescriptor, VfsNodeKind};
use wll_os::fs::fd::open_flags::{
    O_APPEND, O_CREAT, O_DIRECTORY, O_EXCL, O_NOFOLLOW, O_PATH, O_RDONLY, O_RDWR, O_TRUNC,
    O_WRONLY,
};
use wll_os::fs::node::MemSpecialKind;
use wll_os::fs::vfs::attributes::{Cutting, Recording};
use wll_os::fs::vfs::contents::{
    choose_executable, interpreter_candidates, read_interpreter, FileSource, Interpreter,
};
use wll_os::fs::vfs::creation::Creation;
use wll_os::fs::vfs::lookup::piece_path;
use wll_os::fs::vfs::opening::Opened;
use wll_os::fs::vfs::removal::{DirRemoval, FileRemoval, Linking, Renaming};
use wll_os::fs::vfs::tree::{path_is_under, Vfs};
use wll_os::fs::vfs::types::{
    check_metadata_access_with_identity, check_noatime_permission, pseudo_inode, regular_blocks,
    synthetic_metadata, CredentialIdentity, R_OK, S_IFDIR, S_IFMT, S_IFREG, W_OK, X_OK,
};
use wll_os::task::{Caller, Credentials, Timestamp};

fn now() -> Timestamp {
    Timestamp { sec: 100, nsec: 5 }
}

fn caller() -> Caller {
    Caller { cred: Credentials::root(), now: now() }
}

fn someone(uid: u32) -> Caller {
    Caller {
        cred: Credentials {
            real_uid: uid,
            effective_uid: uid,
            fsuid: uid,
            real_gid: uid,
            effective_gid: uid,
            fsgid: uid,
            groups: Vec::new(),
            root_capable: false,
        },
        now: now(),
    }
}

fn disk() -> RamDisk {
    RamDisk { bytes: Vec::new() }
}

fn tree() -> Vfs {
    let mut vfs = Vfs::new();
    vfs.files.mem.add_dir(&caller(), "/tmp");
    vfs.files.mem.add_file(&caller(), "/tmp/a", b"hello".to_vec());
    vfs.files.mem.add_dir(&caller(), "/tmp/d");
    assert!(vfs.files.mem.add_symlink(&caller(), "/tmp/l", "a").is_ok());
    vfs
}

fn opened(vfs: &mut Vfs, path: &str, flags: u32) -> Result<FileDescriptor, SysErrNo> {
    match vfs.open_path(&disk(), path, path, flags, 0o644, &caller(), 0) {
        Ok(Opened::File(fd)) => Ok(fd),
        Err(Fault::Sys(e)) => Err(e),
        _ => panic!("the volume is asked"),
    }
}

#[test]
fn opening_reads_what_is_there() {
    let mut vfs = tree();
    let mut fd = opened(&mut vfs, "/tmp/a", O_RDONLY).unwrap_or(FileDescriptor::Stdin);
    let mut buf = [0u8; 9];
    assert_eq!(fd.read(&mut vfs.files, None, &mut buf, &[]), Ok(5));
    assert_eq!(&buf[..5], b"hello");
    assert!(matches!(opened(&mut vfs, "/tmp/none", O_RDONLY), Err(SysErrNo::ENOENT)));
    assert!(matches!(opened(&mut vfs, "/tmp/a/x", O_RDONLY), Err(SysErrNo::ENOTDIR)));
    assert!(matches!(opened(&mut vfs, "/tmp/a", O_DIRECTORY), Err(SysErrNo::ENOTDIR)));
    assert!(matches!(opened(&mut vfs, "/tmp/d", O_WRONLY), Err(SysErrNo::EISDIR)));
    assert!(matches!(
        opened(&mut vfs, "/tmp/d", O_RDONLY),
        Ok(FileDescriptor::MemDir { .. })
    ));
    assert!(matches!(opened(&mut vfs, "/tmp/l", O_NOFOLLOW), Err(SysErrNo::ELOOP)));
    assert!(matches!(
        opened(&mut vfs, "/tmp/a", O_PATH),
        Ok(FileDescriptor::Path { kind: VfsNodeKind::Regular, .. })
    ));
}

#[test]
fn a_link_is_followed() {
    let mut vfs = tree();
    match opened(&mut vfs, "/tmp/l", O_RDONLY) {
        Ok(FileDescriptor::MemFile(h)) => assert_eq!(h.name, "/tmp/a"),
        _ => panic!("no file"),
    }
    assert_eq!(vfs.resolve_final_symlink("/tmp/l", false), Ok("/tmp/a".to_string()));
    assert_eq!(
        vfs.resolve_final_symlink("/tmp/l", true),
        Err(Fault::Sys(SysErrNo::ELOOP))
    );
    assert_eq!(vfs.resolve_final_symlink("/tmp/a", true), Ok("/tmp/a".to_string()));
    assert_eq!(vfs.read_link(&disk(), "/tmp/l", &caller()), Ok("a".to_string()));
    assert_eq!(
        vfs.read_link(&disk(), "/tmp/a", &caller()),
        Err(Fault::Sys(SysErrNo::EINVAL))
    );
}

#[test]
fn links_in_a_circle() {
    let mut vfs = tree();
    assert!(vfs.files.mem.add_symlink(&caller(), "/tmp/x", "y").is_ok());
    assert!(vfs.files.mem.add_symlink(&caller(), "/tmp/y", "x").is_ok());
    assert_eq!(
        vfs.resolve_final_symlink("/tmp/x", false),
        Err(Fault::Sys(SysErrNo::ELOOP))
    );
}

#[test]
fn a_created_file_is_there() {
    let mut vfs = tree();
    let mut fd = opened(&mut vfs, "/tmp/new", O_CREAT | O_RDWR).unwrap_or(FileDescriptor::Stdin);
    assert_eq!(fd.write(&mut vfs.files, &caller(), 1, b"text", &[], 0), Ok(4));
    assert_eq!(vfs.file_exists(&disk(), "/tmp/new"), Ok(true));
    assert!(matches!(
        opened(&mut vfs, "/tmp/new", O_CREAT | O_EXCL | O_RDWR),
        Err(SysErrNo::EEXIST)
    ));
    assert!(matches!(
        vfs.read_file(&disk(), "/tmp/new"),
        Ok(Some(FileSource::Bytes(b))) if b == b"text".to_vec()
    ));
    assert!(opened(&mut vfs, "/tmp/new", O_WRONLY | O_TRUNC).is_ok());
    assert!(matches!(
        vfs.metadata(&disk(), "/tmp/new", true, now()),
        Ok(m) if m.size == 0
    ));
    let mut fd = opened(&mut vfs, "/tmp/a", O_WRONLY | O_APPEND).unwrap_or(FileDescriptor::Stdin);
    assert_eq!(fd.write(&mut vfs.files, &caller(), 1, b"!", &[], 0), Ok(1));
    assert!(matches!(
        vfs.read_file(&disk(), "/tmp/a"),
        Ok(Some(FileSource::Bytes(b))) if b == b"hello!".to_vec()
    ));
}

#[test]
fn what_is_told_of_nodes() {
    let vfs = tree();
    let meta = vfs.metadata(&disk(), "/tmp/a", true, now()).unwrap();
    assert_eq!((meta.kind, meta.mode & S_IFMT, meta.size), (VfsNodeKind::Regular, S_IFREG, 5));
    let meta = vfs.metadata(&disk(), "/tmp/d", true, now()).unwrap();
    assert_eq!((meta.kind, meta.mode & S_IFMT), (VfsNodeKind::Directory, S_IFDIR));
    let meta = vfs.metadata(&disk(), "/tmp/l", false, now()).unwrap();
    assert_eq!(meta.kind, VfsNodeKind::Symlink);
    assert_eq!(
        vfs.metadata(&disk(), "/tmp/none", true, now()),
        Err(Fault::Sys(SysErrNo::ENOENT))
    );
    let told = vfs.metadata_for_fd(&disk(), &FileDescriptor::Stdin, now()).unwrap();
    assert_eq!(told.kind, VfsNodeKind::Other);
}

#[test]
fn a_removed_name_is_gone() {
    let mut vfs = tree();
    assert!(matches!(vfs.remove_file(&disk(), "/tmp/a"), Ok(FileRemoval::Done)));
    assert_eq!(vfs.file_exists(&disk(), "/tmp/a"), Ok(false));
    assert!(matches!(
        vfs.remove_file(&disk(), "/tmp/a"),
        Err(Fault::Sys(SysErrNo::ENOENT))
    ));
    assert!(matches!(vfs.remove_dir(&disk(), "/tmp/d"), Ok(DirRemoval::Done)));
    assert_eq!(vfs.dir_exists(&disk(), "/tmp/d"), Ok(false));
    assert!(matches!(
        vfs.remove_dir(&disk(), "/tmp/l"),
        Err(Fault::Sys(SysErrNo::ENOTDIR | SysErrNo::ENOENT))
    ));
}

#[test]
fn hidden_names() {
    let mut vfs = tree();
    vfs.mark_whiteout("/tmp/a");
    assert!(vfs.is_removed("/tmp/a"));
    assert_eq!(vfs.file_exists(&disk(), "/tmp/a"), Ok(false));
    vfs.clear_whiteout("/tmp/a");
    assert_eq!(vfs.file_exists(&disk(), "/tmp/a"), Ok(true));
}

#[test]
fn names_are_moved_and_added() {
    let mut vfs = tree();
    assert!(matches!(
        vfs.rename_path(&disk(), "/tmp/a", "/tmp/d/b", false),
        Ok(Renaming::Done)
    ));
    assert_eq!(vfs.file_exists(&disk(), "/tmp/d/b"), Ok(true));
    assert!(matches!(
        vfs.link_path(&disk(), "/tmp/d/b", "/tmp/c", false),
        Ok(Linking::Done)
    ));
    assert!(matches!(
        vfs.rename_path(&disk(), "/tmp/c", "/tmp/d/b", true),
        Err(Fault::Sys(SysErrNo::EEXIST))
    ));
    assert!(matches!(
        vfs.rename_path(&disk(), "/tmp/none", "/tmp/x", false),
        Err(Fault::Sys(SysErrNo::ENOENT))
    ));
}

#[test]
fn new_nodes() {
    let mut vfs = tree();
    assert!(matches!(
        vfs.create_dir_with_mode(&disk(), &caller(), "/tmp/e", 0o700),
        Ok(Creation::Here(_))
    ));
    assert!(matches!(
        vfs.create_dir(&disk(), &caller(), "/tmp/e"),
        Err(Fault::Sys(SysErrNo::EEXIST))
    ));
    assert!(matches!(
        vfs.create_symlink(&disk(), &caller(), "e", "/tmp/m"),
        Ok(Creation::Here(_))
    ));
    assert!(matches!(
        vfs.create_regular_file(&disk(), &caller(), "/tmp/f", 0o640),
        Ok(Creation::Here(_))
    ));
    assert!(vfs
        .create_special_node(&disk(), &caller(), "/tmp/p", MemSpecialKind::Fifo, 0o600)
        .is_ok());
    let names: Vec<String> =
        vfs.list_dir(&disk(), "/tmp").unwrap().into_iter().map(|e| e.name).collect();
    assert_eq!(names, vec!["a", "d", "e", "f", "l", "m", "p"]);
}

#[test]
fn attributes_of_nodes() {
    let mut vfs = tree();
    assert!(matches!(
        vfs.set_mode_path(&disk(), &caller(), "/tmp/a", true, 0o600, 0),
        Ok(Recording::Done)
    ));
    assert!(matches!(
        vfs.set_owner_path(&disk(), &caller(), "/tmp/a", true, Some(7), Some(8), 0),
        Ok(Recording::Done)
    ));
    assert!(matches!(
        vfs.set_times_path(&disk(), &caller(), "/tmp/a", true, Some((1, 2)), Some((3, 4)), 0),
        Ok(Recording::Done)
    ));
    let meta = vfs.metadata(&disk(), "/tmp/a", true, now()).unwrap();
    assert_eq!((meta.mode & 0o777, meta.uid, meta.gid), (0o600, 7, 8));
    assert_eq!((meta.atime_sec, meta.mtime_nsec), (1, 4));
    assert!(matches!(
        vfs.truncate_path(&disk(), &caller(), "/tmp/a", 2, 0),
        Ok(Cutting::Done)
    ));
    let meta = vfs.metadata(&disk(), "/tmp/a", true, now()).unwrap();
    assert_eq!(meta.size, 2);
    assert_eq!(
        vfs.truncate_path(&disk(), &caller(), "/tmp/d", 2, 0),
        Err(Fault::Sys(SysErrNo::EISDIR))
    );
}

#[test]
fn rights() {
    let mut vfs = tree();
    let dev = disk();
    assert!(vfs.set_mode_path(&dev, &caller(), "/tmp/a", true, 0o640, 0).is_ok());
    assert_eq!(
        vfs.check_access(&dev, "/tmp/a", true, R_OK, &someone(7)),
        Err(Fault::Sys(SysErrNo::EACCES))
    );
    assert_eq!(vfs.check_access(&dev, "/tmp/a", true, R_OK | W_OK, &caller()), Ok(()));
    assert!(vfs.set_owner_path(&dev, &caller(), "/tmp/a", true, Some(7), None, 0).is_ok());
    assert_eq!(vfs.check_access(&dev, "/tmp/a", true, R_OK | W_OK, &someone(7)), Ok(()));
    assert_eq!(
        vfs.check_access(&dev, "/tmp/a", true, X_OK, &caller()),
        Err(Fault::Sys(SysErrNo::EACCES))
    );
    assert!(vfs.set_mode_path(&dev, &caller(), "/tmp/d", true, 0o700, 0).is_ok());
    assert_eq!(
        vfs.check_search_access(
            &dev,
            "/tmp/d/x",
            CredentialIdentity::Filesystem,
            &someone(7)
        ),
        Err(Fault::Sys(SysErrNo::EACCES))
    );
}

#[test]
fn rights_by_mode() {
    let meta = synthetic_metadata("k", VfsNodeKind::Regular, S_IFREG | 0o641, 0, 1, now());
    let mut meta = meta;
    meta.uid = 5;
    meta.gid = 6;
    let owner = someone(5).cred;
    let member = someone(6).cred;
    let other = someone(9).cred;
    let who = CredentialIdentity::Effective;
    assert_eq!(check_metadata_access_with_identity(&meta, &owner, R_OK | W_OK, who), Ok(()));
    assert_eq!(
        check_metadata_access_with_identity(&meta, &owner, X_OK, who),
        Err(SysErrNo::EACCES)
    );
    assert_eq!(check_metadata_access_with_identity(&meta, &member, R_OK, who), Ok(()));
    assert_eq!(check_metadata_access_with_identity(&meta, &other, X_OK, who), Ok(()));
    assert_eq!(check_noatime_permission(&meta, &owner), Ok(()));
    assert_eq!(check_noatime_permission(&meta, &other), Err(SysErrNo::EPERM));
}

#[test]
fn mounting_and_unmounting() {
    let mut vfs = tree();
    let dev = disk();
    vfs.init_mount_table(&caller());
    let before = vfs.mounts.len();
    assert_eq!(
        vfs.mount_fs(&dev, &caller(), "none", "/tmp/d", "/tmp/d", "tmpfs", 0),
        Ok(())
    );
    assert!(vfs.is_tmpfs_path("/tmp/d/x"));
    assert_eq!(vfs.umount_fs(&caller(), "/tmp/d", "/tmp/d", 0), Ok(()));
    assert_eq!(vfs.mounts.len(), before);
    assert!(!vfs.is_tmpfs_path("/tmp/d/x"));
    assert_eq!(
        vfs.umount_fs(&caller(), "/tmp/d", "/tmp/d", 0),
        Err(SysErrNo::EINVAL)
    );
    assert!(vfs.mount_fs(&dev, &caller(), "none", "/tmp/d", "/tmp/d", "xfs", 0).is_err());
}

#[test]
fn programs_and_their_loaders() {
    assert_eq!(choose_executable(Some(vec![1]), None), Some(vec![1]));
    assert_eq!(choose_executable(None, Some(vec![2])), Some(vec![2]));
    assert_eq!(choose_executable(None, None), None);
    let tried = interpreter_candidates("/", "/lib/ld-musl-riscv64.so.1", false);
    assert_eq!(tried.len(), 2);
}

#[test]
fn a_tree_from_the_start() {
    let mut vfs = Vfs::new();
    vfs.init(&caller(), &vec![("/hello".to_string(), b"\x7fELF".to_vec())]);
    assert_eq!(vfs.dir_exists(&disk(), "/proc"), Ok(true));
    assert_eq!(vfs.file_exists(&disk(), "/hello"), Ok(true));
    assert!(vfs.list_files().unwrap().contains(&"/hello".to_string()));
    assert!(vfs.statfs_for_path(&disk(), "/", None, now()).is_ok());
    assert!(vfs.install_busybox_shell_aliases(&caller()).is_ok());
    assert_eq!(vfs.path_uses_ext4("/hello"), Ok(false));
}

#[test]
fn helpers_for_paths() {
    assert!(path_is_under("/a/b", "/a"));
    assert!(path_is_under("/a", "/a"));
    assert!(!path_is_under("/ab", "/a"));
    assert_eq!(piece_path("/", "x"), "/x");
    assert_eq!(piece_path("/a", "x"), "/a/x");
    assert_eq!(regular_blocks(0), 0);
    assert_eq!(regular_blocks(513), 2);
    assert_eq!(pseudo_inode("/a"), pseudo_inode("/a"));
    assert_ne!(pseudo_inode("/a"), pseudo_inode("/b"));
}

#[test]
fn attributes_by_open_file() {
    let mut vfs = tree();
    let dev = disk();
    let mut fd = opened(&mut vfs, "/tmp/a", O_RDWR).unwrap_or(FileDescriptor::Stdin);
    assert!(matches!(vfs.set_mode_fd(&caller(), &fd, 0o600, 0), Ok(Recording::Done)));
    assert!(matches!(
        vfs.set_owner_fd(&caller(), &fd, Some(3), Some(4), 0),
        Ok(Recording::Done)
    ));
    assert!(matches!(
        vfs.set_times_fd(&caller(), &mut fd, Some((5, 6)), None, 0),
        Ok(Recording::Done)
    ));
    assert!(vfs.truncate_fd(&mut fd, &caller(), 1, 0).is_ok());
    let meta = vfs.metadata_for_fd(&dev, &fd, now()).unwrap();
    assert_eq!((meta.mode & 0o777, meta.uid, meta.gid), (0o600, 3, 4));
    assert_eq!((meta.atime_sec, meta.size), (5, 1));
    assert_eq!(vfs.check_fd_access(&dev, &fd, R_OK, &caller()), Ok(()));
    assert_eq!(
        vfs.check_fd_access(&dev, &fd, R_OK, &someone(9)),
        Err(Fault::Sys(SysErrNo::EACCES))
    );
    assert_eq!(vfs.sync_fd(&fd), Ok(None));
    assert!(vfs.statfs_for_fd(&dev, &fd, None, now()).is_ok());
}

#[test]
fn rights_of_the_real_user() {
    let vfs = tree();
    let dev = disk();
    let mut who = someone(9);
    who.cred.effective_uid = 0;
    assert_eq!(vfs.check_access_with_effective(&dev, "/tmp/a", true, R_OK, false, &who), Ok(()));
    assert!(matches!(vfs.read_executable_file(&dev, "/tmp/a"), Ok(_)));
    assert!(vfs.filesystem_magic().is_ok());
}

fn inode(mode: u16, links: u16) -> DiskInode {
    DiskInode {
        mode,
        flags: 0,
        links,
        uid: 0,
        gid: 0,
        size: 5,
        blocks: 0,
        atime: 0,
        atime_extra: 0,
        mtime: 0,
        mtime_extra: 0,
        ctime: 0,
        ctime_extra: 0,
        dtime: 0,
    }
}

fn entry(name: &str, ino: u32, type_byte: u8) -> RawEntry {
    RawEntry { name: name.to_string(), ino, type_byte, used: true, inode_is_dir: false }
}

// The volume "/f" (file 12), "/d" (directory 11), "/l" (a link).
fn tree_on_a_volume() -> Vfs {
    let mut vfs = Vfs::new();
    let mut vol = Ext4Volume::new();
    vol.names.mounted = true;
    vol.names.install_raw_dir(
        2,
        &vec![entry("f", 12, 1), entry("d", 11, DIRENT_DIR), entry("l", 14, 7)],
    );
    vol.names.install_raw_dir(11, &Vec::new());
    vol.names.install_inode(2, inode(0x41ed, 3));
    vol.names.install_inode(11, inode(0x41ed, 2));
    vol.names.install_inode(12, inode(0x81a4, 1));
    vol.names.install_inode(14, inode(0xa1ff, 1));
    vol.names.install_link(14, b"d/\xc3\xa9".to_vec());
    vfs.files.vol = vol;
    vfs
}

#[test]
fn a_volume_moves_what_was_hidden() {
    let mut vfs = tree_on_a_volume();
    vfs.mark_whiteout("/d/h");
    let m = match vfs.rename_path(&disk(), "/f", "/d/h", false) {
        Ok(Renaming::Volume(RenameStep::Move(m))) => m,
        _ => panic!("no movement"),
    };
    vfs.renamed_on_volume(&m, "/d/h");
    assert!(!vfs.is_removed("/d/h"));
    assert_eq!(vfs.files.vol.names.lookup("/f"), Err(Load::Dir(2)));
    vfs.files.vol.names.install_raw_dir(2, &vec![entry("d", 11, DIRENT_DIR)]);
    vfs.files.vol.names.install_raw_dir(11, &vec![entry("h", 12, 1)]);
    vfs.files.vol.names.install_inode(12, inode(0x81a4, 1));
    vfs.files.vol.names.install_inode(11, inode(0x41ed, 2));
    vfs.files.vol.names.install_inode(2, inode(0x41ed, 3));
    assert_eq!(vfs.file_exists(&disk(), "/d/h"), Ok(true));
    assert_eq!(vfs.file_exists(&disk(), "/f"), Ok(false));
}

#[test]
fn a_volume_links_what_was_hidden() {
    let mut vfs = tree_on_a_volume();
    vfs.mark_whiteout("/d/h");
    let link = match vfs.link_path(&disk(), "/f", "/d/h", false) {
        Ok(Linking::Volume(link)) => link,
        _ => panic!("no link"),
    };
    assert_eq!((link.child_ino, link.place.parent_ino), (12, 11));
    vfs.linked_on_volume(&link, "/d/h");
    assert!(!vfs.is_removed("/d/h"));
    assert_eq!(vfs.files.vol.names.lookup("/d/h"), Err(Load::Inode(11)));
    vfs.files.vol.names.install_inode(11, inode(0x41ed, 2));
    assert_eq!(vfs.files.vol.names.lookup("/d/h"), Err(Load::Dir(11)));
    vfs.files.vol.names.install_raw_dir(11, &vec![entry("h", 12, 1)]);
    vfs.files.vol.names.install_inode(12, inode(0x81a4, 2));
    assert_eq!(vfs.file_exists(&disk(), "/d/h"), Ok(true));
}

#[test]
fn what_has_to_be_read_first_hides_nothing() {
    let mut vfs = tree_on_a_volume();
    vfs.files.vol.names.clear_namespace_cache();
    vfs.mark_whiteout("/d/new");
    assert!(matches!(
        vfs.create_dir_with_mode(&disk(), &caller(), "/d/new", 0o755),
        Err(Fault::Need(_))
    ));
    assert!(vfs.is_removed("/d/new"));
    assert!(matches!(
        vfs.create_regular_file(&disk(), &caller(), "/d/new", 0o644),
        Err(Fault::Need(_))
    ));
    assert!(vfs.is_removed("/d/new"));
    assert!(matches!(
        vfs.create_symlink(&disk(), &caller(), "f", "/d/new"),
        Err(Fault::Need(_))
    ));
    assert!(vfs.is_removed("/d/new"));
}

#[test]
fn a_created_directory_is_there() {
    let mut vfs = tree();
    vfs.mark_whiteout("/tmp/e");
    assert!(matches!(
        vfs.create_dir_with_mode(&disk(), &caller(), "/tmp/e", 0o700),
        Ok(Creation::Here(_))
    ));
    assert_eq!(vfs.dir_exists(&disk(), "/tmp/e"), Ok(true));
    assert!(matches!(
        vfs.create_dir_with_mode(&disk(), &caller(), "/tmp/e", 0o700),
        Err(Fault::Sys(SysErrNo::EEXIST))
    ));
}

#[test]
fn a_created_directory_of_a_volume_is_there() {
    let mut vfs = tree_on_a_volume();
    vfs.mark_whiteout("/d/e");
    let new = match vfs.create_dir_with_mode(&disk(), &caller(), "/d/e", 0o700) {
        Ok(Creation::Volume(new)) => new,
        _ => panic!("no entry"),
    };
    assert_eq!((new.place.parent_ino, new.place.name.as_str()), (11, "e"));
    vfs.files.vol.entry_created(&new, 20);
    vfs.files.vol.names.install_raw_dir(11, &vec![entry("e", 20, DIRENT_DIR)]);
    vfs.files.vol.names.install_raw_dir(20, &Vec::new());
    vfs.files.vol.names.install_inode(11, inode(0x41ed, 3));
    vfs.files.vol.names.install_inode(20, inode(0x41c0, 2));
    assert_eq!(vfs.dir_exists(&disk(), "/d/e"), Ok(true));
    assert!(matches!(
        vfs.create_dir_with_mode(&disk(), &caller(), "/d/e", 0o700),
        Err(Fault::Sys(SysErrNo::EEXIST))
    ));
}

#[test]
fn a_created_link_reads_back() {
    let mut vfs = tree();
    vfs.mark_whiteout("/tmp/m");
    assert!(matches!(
        vfs.create_symlink(&disk(), &caller(), "../x/./y", "/tmp/m"),
        Ok(Creation::Here(_))
    ));
    assert_eq!(vfs.read_link(&disk(), "/tmp/m", &caller()), Ok("../x/./y".to_string()));
    assert_eq!(
        tree_on_a_volume().read_link(&disk(), "/l", &caller()),
        Ok("d/\u{e9}".to_string())
    );
    assert_eq!(
        tree_on_a_volume().read_link(&disk(), "/f", &caller()),
        Err(Fault::Sys(SysErrNo::EINVAL))
    );
}

#[test]
fn files_of_the_whole_tree() {
    let mut vfs = tree_on_a_volume();
    vfs.files.mem.add_file(&caller(), "/tmp/a", b"hello".to_vec());
    assert_eq!(vfs.list_files(), Ok(vec!["/f".to_string(), "/tmp/a".to_string()]));
    assert_eq!(
        vfs.files.vol.names.lookup("/l"),
        Ok(Some((14, Ext4NodeKind::Symlink)))
    );
}

#[test]
fn a_new_tree_is_empty() {
    let vfs = Vfs::new();
    assert!(vfs.mounts.is_empty());
    assert!(vfs.files.doomed.is_empty());
    assert!(vfs.files.blocks.devices.is_empty());
    assert_eq!(vfs.files.blocks.first_free_loop(), Some(0));
    assert!(!vfs.files.vol.names.mounted);
    assert_eq!(vfs.files.vol.dirty_files(), Vec::<u32>::new());
    assert_eq!(vfs.list_files(), Ok(Vec::new()));
}

#[test]
fn syncing_gives_up_clean_pages() {
    let mut vfs = tree_on_a_volume();
    vfs.files.vol.install_page(12, 0, vec![1u8; 4096], 1 << 20);
    assert_eq!(vfs.files.vol.clean_page_cache_frame(12, 0), Ok(vec![1u8; 4096]));
    assert_eq!(
        vfs.files.vol.cached_pblock_for_clean_read(12, 0, 4, &vec![Some(7), Some(8)]),
        Some(7)
    );
    assert_eq!(vfs.files.vol.runs.get(12, 1), Some(8));
    assert_eq!(vfs.sync_all(Some(SysErrNo::EIO)), Err(SysErrNo::EIO));
    assert_eq!(vfs.files.vol.clean_page_cache_frame(12, 0), Err(Ok(0)));
    assert_eq!(vfs.files.vol.runs.get(12, 1), None);
    assert_eq!(vfs.sync_all(None), Ok(()));
}

#[test]
fn reading_a_program_counts() {
    let mut vfs = tree_on_a_volume();
    let counts = vfs.files.vol.images.diagnostic_executable_cache_stats();
    assert!(matches!(vfs.read_file(&disk(), "/f"), Ok(Some(FileSource::Image(_)))));
    vfs.files.vol.images.insert(12, b"hello".to_vec());
    assert!(matches!(vfs.read_file(&disk(), "/f"), Ok(Some(FileSource::Image(_)))));
    assert_ne!(vfs.files.vol.images.diagnostic_executable_cache_stats(), counts);
}

#[test]
fn the_first_interpreter_is_taken() {
    let asked = "/lib64/ld-linux.so.2";
    let places = interpreter_candidates("/jail", asked, false);
    assert_eq!(
        places,
        vec![
            ("/lib64/ld-linux.so.2".to_string(), "/jail/lib64/ld-linux.so.2".to_string()),
            ("/lib/ld-linux.so.2".to_string(), "/jail/lib/ld-linux.so.2".to_string()),
            ("/lib/libc.so".to_string(), "/jail/lib/libc.so".to_string()),
        ]
    );
    assert!(matches!(
        read_interpreter("/jail", asked, false, vec![None]),
        Interpreter::Look(host) if host == "/jail/lib/ld-linux.so.2"
    ));
    assert!(matches!(
        read_interpreter("/jail", asked, false, vec![None, Some(vec![1]), Some(vec![2])]),
        Interpreter::Found(logical, host, data)
            if logical == "/lib/ld-linux.so.2" && host == "/jail/lib/ld-linux.so.2" && data == vec![1]
    ));
    assert!(matches!(
        read_interpreter("/jail", asked, false, vec![None, None, None]),
        Interpreter::Missing
    ));
}
