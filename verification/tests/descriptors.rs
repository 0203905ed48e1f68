use wll_os::errno::SysErrNo;
use wll_os::fs::block_dev::registry::LoopBacking;
use wll_os::fs::content::MemFileContent;
use wll_os::fs::dirent::DirEntryRecord;
use wll_os::fs::ext4::access::ReadFault;
use wll_os::fs::ext4::data::WriteFault;
use wll_os::fs::ext4::types::DiskInode;
use wll_os::fs::ext4::volume::Fault;
use wll_os::fs::fd::channel::{EventFdState, PipeState, SocketState, PIPE_CAPACITY};
use wll_os::fs::fd::console::ConsoleLines;
use wll_os::fs::fd::descriptor::{Channels, FileDescriptor, Files, VfsNodeKind, Wake};
use wll_os::fs::fd::dirents::{put_records, OutEntry};
use wll_os::fs::fd::handle::MemHandle;
use wll_os::fs::fd::pipe_flags::O_NONBLOCK;
use wll_os::fs::fd::stdin::{switch_is_on, trace_line, typed_byte};
use wll_os::fs::fd::table::{FileDescriptorTable, FD_CLOEXEC, MAX_FD_NUM};
use wll_os::fs::node::FileTimes;
use wll_os::task::{Caller, Credentials, Timestamp};

fn caller() -> Caller {
    Caller { cred: Credentials::root(), now: Timestamp { sec: 100, nsec: 5 } }
}

fn handle(name: &str, append: bool) -> FileDescriptor {
    FileDescriptor::MemFile(MemHandle {
        name: name.to_string(),
        content: MemFileContent::new(),
        times: FileTimes::now(Timestamp { sec: 1, nsec: 1 }),
        offset: 0,
        readable: true,
        writable: true,
        append,
        linked: true,
        node: None,
    })
}

fn files_with(name: &str, text: &[u8]) -> Files {
    let mut files = Files::new();
    files.mem.add_file(&caller(), name, text.to_vec());
    files
}

#[test]
fn pipes_keep_the_order() {
    let mut pipe = PipeState::new();
    assert!(pipe.read_would_block());
    assert_eq!(pipe.write(b"abc").0, Ok(3));
    assert_eq!(pipe.write(b"de").0, Ok(2));
    let mut buf = [0u8; 4];
    assert_eq!(pipe.read(&mut buf).0, Ok(4));
    assert_eq!(&buf, b"abcd");
    assert_eq!(pipe.read(&mut buf).0, Ok(1));
    assert_eq!(pipe.read(&mut buf).0, Err(SysErrNo::EAGAIN));
    pipe.writers = 0;
    assert_eq!(pipe.read(&mut buf).0, Ok(0));
    pipe.readers = 0;
    assert_eq!(pipe.write(b"x").0, Err(SysErrNo::EPIPE));
}

#[test]
fn pipes_hold_so_much() {
    let mut pipe = PipeState::new();
    let long = vec![1u8; PIPE_CAPACITY + 1];
    assert_eq!(pipe.write(&long).0, Ok(PIPE_CAPACITY));
    assert!(pipe.write_would_block());
    assert_eq!(pipe.write(b"x").0, Err(SysErrNo::EAGAIN));
}

#[test]
fn counters_are_taken() {
    let mut event = EventFdState::new(3, false, true);
    let mut buf = [0u8; 8];
    assert_eq!(event.read(&mut buf).0, Ok(8));
    assert_eq!(u64::from_le_bytes(buf), 3);
    assert_eq!(event.read(&mut buf).0, Err(SysErrNo::EAGAIN));
    assert_eq!(event.write(&5u64.to_le_bytes()).0, Ok(8));
    assert_eq!(event.counter, 5);
    assert_eq!(event.write(&u64::MAX.to_le_bytes()).0, Err(SysErrNo::EINVAL));
    assert_eq!(event.read(&mut buf[..4]).0, Err(SysErrNo::EINVAL));
    let mut one = EventFdState::new(3, true, true);
    assert_eq!(one.read(&mut buf).0, Ok(8));
    assert_eq!((u64::from_le_bytes(buf), one.counter), (1, 2));
}

#[test]
fn sockets_keep_the_order() {
    let mut socket = SocketState::new(2, 1, 0, true);
    assert!(socket.is_stream());
    let mut buf = [0u8; 2];
    socket.receive(b"abc");
    assert_eq!(socket.read(&mut buf), Err(SysErrNo::ENOTCONN));
    socket.connected = true;
    assert_eq!(socket.read(&mut buf), Ok(2));
    assert_eq!(&buf, b"ab");
    let mut other = SocketState::new(2, 2, 0, true);
    assert!(other.is_datagram());
    assert_eq!(other.sndbuf, 65536);
    assert!(other.read(&mut buf).is_err());
}

#[test]
fn lines_are_shown_when_complete() {
    let mut lines = ConsoleLines::new();
    assert_eq!(lines.write_console_buffered(7, b"hel"), b"".to_vec());
    assert_eq!(lines.write_console_buffered(8, b"other\n"), b"other\n".to_vec());
    assert_eq!(lines.write_console_buffered(7, b"lo\nrest"), b"hello\n".to_vec());
    assert_eq!(lines.flush_console_buffer_for_pid(7), b"rest".to_vec());
    assert_eq!(lines.flush_console_buffer_for_pid(7), b"".to_vec());
    assert_eq!(lines.write_console_buffered(9, &[b'x'; 513]).len(), 512);
}

#[test]
fn files_of_memory_are_read_and_written() {
    let mut files = files_with("/a", b"hello");
    let mut fd = handle("/a", false);
    let mut buf = [0u8; 3];
    assert_eq!(fd.read(&mut files, None, &mut buf, &[]), Ok(3));
    assert_eq!(&buf, b"hel");
    assert_eq!(fd.write(&mut files, &caller(), 1, b"p!", &[], 0), Ok(2));
    assert_eq!(files.mem.get_file("/a").unwrap().to_vec(&files.mem), b"help!".to_vec());
    assert_eq!(fd.seek_signed(&files, -2, 2), Ok(3));
    assert_eq!(fd.read(&mut files, None, &mut buf, &[]), Ok(2));
    assert_eq!(fd.seek(&files, 1, 0), Ok(1));
    assert_eq!(fd.seek_signed(&files, -9, 1), Err(Fault::Sys(SysErrNo::EINVAL)));
    assert_eq!(fd.size(&files), Ok(5));
    assert_eq!(fd.read_at(&mut files, 4, &mut buf, &[]), Ok(1));
    assert_eq!(fd.write_at(&mut files, &caller(), 0, b"H", &[], 0), Ok(1));
    assert!(fd.ftruncate(&mut files, &caller(), 3, 0).is_ok());
    assert_eq!(fd.size(&files), Ok(3));
}

#[test]
fn two_handles_see_the_same_file() {
    let mut files = files_with("/a", b"hello");
    let mut one = handle("/a", true);
    let mut two = handle("/a", false);
    assert_eq!(one.write(&mut files, &caller(), 1, b"!", &[], 0), Ok(1));
    let mut buf = [0u8; 9];
    assert_eq!(two.read(&mut files, None, &mut buf, &[]), Ok(6));
    assert_eq!(&buf[..6], b"hello!");
}

#[test]
fn the_console_is_read_and_written() {
    let mut files = Files::new();
    let mut buf = [0u8; 3];
    assert_eq!(FileDescriptor::Stdin.read(&mut files, Some(b'k'), &mut buf, &[]), Ok(1));
    assert_eq!(buf[0], b'k');
    assert_eq!(FileDescriptor::Stdin.read(&mut files, None, &mut buf, &[]), Ok(0));
    assert_eq!(FileDescriptor::Stdout.write(&mut files, &caller(), 4, b"hi\n", &[], 0), Ok(3));
    assert_eq!(files.channels.output, b"hi\n".to_vec());
    assert_eq!(
        FileDescriptor::Stdout.read(&mut files, None, &mut buf, &[]),
        Err(ReadFault::Sys(SysErrNo::EBADF))
    );
    assert_eq!(
        FileDescriptor::Stdin.write(&mut files, &caller(), 4, b"x", &[], 0),
        Err(WriteFault::Sys(SysErrNo::EBADF))
    );
}

#[test]
fn what_cannot_be_read() {
    let mut files = Files::new();
    let mut buf = [0u8; 3];
    let mut dir = FileDescriptor::MemDir {
        path: "/".to_string(),
        host_path: "/".to_string(),
        entries: Vec::new(),
        offset: 0,
    };
    assert_eq!(
        dir.read(&mut files, None, &mut buf, &[]),
        Err(ReadFault::Sys(SysErrNo::EISDIR))
    );
    let mut path = FileDescriptor::Path {
        logical_path: "/".to_string(),
        host_path: "/".to_string(),
        kind: VfsNodeKind::Directory,
        flags: 0,
    };
    assert_eq!(
        path.read(&mut files, None, &mut buf, &[]),
        Err(ReadFault::Sys(SysErrNo::EBADF))
    );
    assert!(!path.readable());
    assert!(FileDescriptor::Stdin.readable());
    assert!(FileDescriptor::Stdout.writable());
}

#[test]
fn the_ends_of_a_pipe() {
    let mut files = Files::new();
    let (mut reader, mut writer) = files.channels.create_pipe(false);
    assert!(reader.is_pipe_read());
    assert!(writer.is_pipe_write());
    assert!(reader.pipe_read_would_block(&files.channels));
    assert_eq!(writer.write(&mut files, &caller(), 1, b"abc", &[], 0), Ok(3));
    assert!(matches!(files.channels.wakes.last(), Some(Wake::PipeReaders(_) | Wake::Io)));
    assert!(reader.poll_read_ready(&files.channels));
    let copy = writer.duplicate(&mut files);
    writer.close(&mut files);
    let mut buf = [0u8; 8];
    assert_eq!(reader.read(&mut files, None, &mut buf, &[]), Ok(3));
    assert_eq!(
        reader.read(&mut files, None, &mut buf, &[]),
        Err(ReadFault::Sys(SysErrNo::EAGAIN))
    );
    assert!(!reader.poll_hup(&files.channels));
    copy.close(&mut files);
    assert_eq!(reader.read(&mut files, None, &mut buf, &[]), Ok(0));
    assert!(reader.poll_hup(&files.channels));
    reader.set_status_flags(&mut files.channels, O_NONBLOCK);
    assert!(reader.pipe_read_nonblocking());
}

#[test]
fn counters_as_files() {
    let mut files = Files::new();
    let mut event = files.channels.create_eventfd(0, false, true);
    assert!(event.eventfd_read_would_block(&files.channels));
    assert_eq!(event.write(&mut files, &caller(), 1, &2u64.to_le_bytes(), &[], 0), Ok(8));
    assert!(event.poll_read_ready(&files.channels));
    assert!(event.eventfd_read_nonblocking(&files.channels));
    assert!(event.eventfd_read_wait_key().is_some());
    let same = event.duplicate(&mut files);
    assert!(!event.same_file_identity(&same));
    assert!(handle("/a", true).same_file_identity(&handle("/a", false)));
    assert!(!handle("/a", true).same_file_identity(&handle("/b", true)));
}

#[test]
fn records_of_a_directory() {
    let entries = vec![
        OutEntry { ino: 5, name: "a".to_string(), is_dir: true },
        OutEntry { ino: 6, name: "long-name".to_string(), is_dir: false },
    ];
    let mut buf = [0u8; 64];
    let (written, count) = put_records(&mut buf, &entries, 0);
    assert_eq!((written, count), (24 + 32, 2));
    assert_eq!(buf[..8], 5u64.to_le_bytes());
    assert_eq!(buf[8..16], 1u64.to_le_bytes());
    assert_eq!((buf[16], buf[17], buf[18]), (24, 0, 4));
    assert_eq!(&buf[19..21], b"a\0");
    assert_eq!((buf[24 + 16], buf[24 + 18]), (32, 8));
    let (written, count) = put_records(&mut buf[..30], &entries, 0);
    assert_eq!((written, count), (24, 1));
}

#[test]
fn reading_the_entries_of_a_directory() {
    let files = Files::new();
    let mut dir = FileDescriptor::MemDir {
        path: "/".to_string(),
        host_path: "/".to_string(),
        entries: vec![DirEntryRecord { name: "x".to_string(), is_dir: false }],
        offset: 0,
    };
    let mut buf = [0u8; 256];
    assert!(dir.read_dirents64(&files, &mut buf).unwrap() > 0);
    assert_eq!(dir.read_dirents64(&files, &mut buf), Ok(0));
    assert_eq!(
        FileDescriptor::Stdin.read_dirents64(&files, &mut buf),
        Err(Fault::Sys(SysErrNo::ENOTDIR))
    );
}

#[test]
fn numbers_of_open_files() {
    let mut files = Files::new();
    let mut table = FileDescriptorTable::new();
    assert_eq!(table.len(), 3);
    assert_eq!(table.alloc_fd(&mut files, FileDescriptor::LoopControl), Some(3));
    assert_eq!(
        table.alloc_with_flags(&mut files, FileDescriptor::LoopControl, FD_CLOEXEC),
        Some(4)
    );
    assert_eq!(table.alloc_from(&mut files, 10, FileDescriptor::LoopControl), Some(10));
    assert_eq!(table.fd_flags(4), Ok(FD_CLOEXEC));
    assert_eq!(table.fd_flags(5), Err(SysErrNo::EBADF));
    assert_eq!(table.free(&mut files, 3), Ok(()));
    assert_eq!(table.free(&mut files, 3), Err(SysErrNo::EBADF));
    assert_eq!(table.alloc_fd(&mut files, FileDescriptor::LoopControl), Some(3));
    assert_eq!(table.close_on_exec().len(), 1);
    assert!(table.get(4).is_none());
    assert!(table.get(3).is_some());
    assert_eq!(table.close_all().len(), 5);
    assert_eq!(table.len(), 0);
}

#[test]
fn numbers_are_copied() {
    let mut files = Files::new();
    let mut table = FileDescriptorTable::default();
    assert_eq!(table.dup(&mut files, 1), Ok(3));
    assert_eq!(table.dup2(&mut files, 1, 7), Ok(7));
    assert_eq!(table.dup2(&mut files, 1, 1), Ok(1));
    assert_eq!(table.dup2(&mut files, 50, 7), Err(SysErrNo::EBADF));
    assert_eq!(table.dup2(&mut files, 1, MAX_FD_NUM), Err(SysErrNo::EBADF));
    assert_eq!(table.dup(&mut files, 50), Err(SysErrNo::EBADF));
    assert_eq!(table.dup_below(&mut files, 1, 4), Err(SysErrNo::EMFILE));
    assert!(matches!(table.get(7), Some(FileDescriptor::Stdout)));
    assert_eq!(table.set_fd_flags(7, FD_CLOEXEC), Ok(()));
    assert_eq!(table.fd_flags(7), Ok(FD_CLOEXEC));
    assert_eq!(table.fd_flags(1), Ok(0));
}

#[test]
fn an_open_file_is_changed_in_its_place() {
    let mut files = files_with("/a", b"hello");
    let mut table = FileDescriptorTable::new();
    assert_eq!(table.alloc_fd(&mut files, handle("/a", false)), Some(3));
    let mut buf = [0u8; 2];
    let fd = table.get_mut(3).unwrap();
    assert_eq!(fd.read(&mut files, None, &mut buf, &[]), Ok(2));
    match table.get(3) {
        Some(FileDescriptor::MemFile(h)) => assert_eq!(h.offset, 2),
        _ => panic!("no file"),
    }
    assert!(table.get_mut(4).is_none());
    assert!(table.get_mut(MAX_FD_NUM).is_none());
}

#[test]
fn a_full_table() {
    let mut files = Files::new();
    let mut table = FileDescriptorTable::new();
    for fd in 3..MAX_FD_NUM {
        assert_eq!(table.alloc_fd(&mut files, FileDescriptor::LoopControl), Some(fd));
    }
    assert_eq!(table.alloc_fd(&mut files, FileDescriptor::LoopControl), None);
    assert_eq!(table.dup(&mut files, 1), Err(SysErrNo::EMFILE));
}

#[test]
fn switches_and_typed_bytes() {
    for text in ["1", "true", "TRUE", "yes", "YES", "on", "ON"] {
        assert!(switch_is_on(Some(text)));
    }
    assert!(!switch_is_on(Some("True")));
    assert!(!switch_is_on(None));
    assert_eq!(typed_byte(b'\r'), b'\n');
    assert_eq!(typed_byte(b'a'), b'a');
    assert_eq!(trace_line(0x3f), "[stdin-trace] got 0x3f\n");
}

#[test]
fn reserving_space() {
    let mut files = files_with("/a", b"hello");
    let mut fd = handle("/a", false);
    assert!(fd.allocate(&mut files, &caller(), 4, 6, false, 0).is_ok());
    assert_eq!(fd.size(&files), Ok(10));
    assert!(fd.allocate(&mut files, &caller(), 4, 60, true, 0).is_ok());
    assert_eq!(fd.size(&files), Ok(10));
    assert_eq!(FileDescriptor::Stdin.sync(), Ok(None));
    let (reader, _) = files.channels.create_pipe(false);
    assert_eq!(reader.sync(), Err(SysErrNo::EINVAL));
}

#[test]
fn channels_start_empty() {
    let channels = Channels::new();
    assert_eq!(channels.pipes.len(), 0);
    assert!(channels.output.is_empty());
}

#[test]
fn the_writing_end_of_a_pipe() {
    let mut files = Files::new();
    let (reader, writer) = files.channels.create_pipe(true);
    assert!(writer.pipe_write_nonblocking());
    assert!(!writer.pipe_write_would_block(&files.channels));
    assert!(writer.poll_write_ready(&files.channels));
    assert!(!writer.poll_error(&files.channels));
    assert_ne!(reader.pipe_read_wait_key(), None);
    assert_ne!(reader.pipe_read_wait_key(), writer.pipe_write_wait_key());
    assert_eq!(reader.pipe_write_wait_key(), None);
    assert_eq!(writer.socket_state(), None);
    reader.close(&mut files);
    assert!(writer.poll_error(&files.channels));
}

#[test]
fn files_at_given_numbers() {
    let mut files = Files::new();
    let mut table = FileDescriptorTable::new();
    assert_eq!(table.alloc_at(&mut files, 9, FileDescriptor::LoopControl), Ok(()));
    assert!(table.get(9).is_some());
    assert_eq!(
        table.alloc_at(&mut files, MAX_FD_NUM, FileDescriptor::LoopControl),
        Err(SysErrNo::EBADF)
    );
}

#[test]
fn a_table_is_copied() {
    let mut files = Files::new();
    let mut table = FileDescriptorTable::new();
    let (reader, writer) = files.channels.create_pipe(false);
    let pipe = match &reader {
        FileDescriptor::PipeRead { pipe, .. } => *pipe,
        _ => panic!("no pipe"),
    };
    assert_eq!(table.alloc_fd(&mut files, reader), Some(3));
    assert_eq!(table.alloc_with_flags(&mut files, writer, FD_CLOEXEC), Some(4));
    let regular = FileDescriptor::Ext4Regular {
        ino: 12,
        offset: 7,
        readable: true,
        writable: false,
        append: false,
    };
    files.vol.open_regular_ino(12);
    assert_eq!(table.alloc_at(&mut files, 9, regular), Ok(()));
    let mut copy = table.duplicate(&mut files);
    assert_eq!(copy.len(), table.len());
    assert_eq!((copy.fd_flags(4), copy.fd_flags(3)), (Ok(FD_CLOEXEC), Ok(0)));
    assert!(matches!(copy.get(9), Some(FileDescriptor::Ext4Regular { ino: 12, offset: 7, .. })));
    let state = files.channels.pipes.get(pipe as u128).unwrap();
    assert_eq!((state.readers, state.writers), (2, 2));
    assert_eq!(copy.free(&mut files, 9), Ok(()));
    assert!(files.vol.has_open_regular_ref(12));
    assert_eq!(table.free(&mut files, 9), Ok(()));
    assert!(!files.vol.has_open_regular_ref(12));
    assert_eq!(copy.free(&mut files, 4), Ok(()));
    let state = files.channels.pipes.get(pipe as u128).unwrap();
    assert_eq!((state.readers, state.writers), (2, 1));
}

#[test]
fn places_on_the_volume() {
    let mut files = Files::new();
    let mut fd = FileDescriptor::Ext4Regular {
        ino: 12,
        offset: 7,
        readable: true,
        writable: true,
        append: true,
    };
    assert_eq!(fd.place_on_volume(&files, true), Some((12, 7)));
    files.vol.names.mounted = true;
    files.vol.names.install_inode(12, regular_inode(300));
    assert_eq!(fd.place_on_volume(&files, true), Some((12, 300)));
    assert_eq!(fd.place_on_volume(&files, false), Some((12, 7)));
    fd = FileDescriptor::LoopDevice { index: 1, offset: 5, readable: true, writable: true };
    assert_eq!(fd.place_on_volume(&files, false), None);
    let file = LoopBacking::Ext4Regular { ino: 13 };
    assert_eq!(files.blocks.attach_loop(&mut files.vol, 1, file), Ok(()));
    assert_eq!(fd.place_on_volume(&files, true), Some((13, 5)));
    assert_eq!(FileDescriptor::Stdin.place_on_volume(&files, false), None);
}

fn regular_inode(size: u64) -> DiskInode {
    DiskInode {
        mode: 0x81a4,
        flags: 0,
        links: 1,
        uid: 0,
        gid: 0,
        size,
        blocks: 0,
        atime: 0,
        atime_extra: 0,
        mtime: 0,
        mtime_extra: 0,
        ctime: 0,
        ctime_extra: 0,
        dtime: 0,
    }
}
