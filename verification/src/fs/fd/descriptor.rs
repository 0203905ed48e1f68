//! Open files of all kinds, and what they share.
use vstd::prelude::*;

use crate::errno::SysErrNo;
use crate::fs::block_dev::registry::BlockDevices;
use crate::fs::dirent::DirEntryRecord;
use crate::fs::ext4::mount::Ext4Volume;
use crate::fs::fd::channel::{
    EventFdState, PipeState, SocketState, PIPE_CAPACITY, SOCK_DGRAM, SOCK_STREAM,
};
use crate::fs::fd::console::ConsoleLines;
use crate::fs::fd::handle::MemHandle;
use crate::fs::memfs::model::MemFsModel;
use crate::fs::memfs::store::MemFileSystem;
use crate::intmap::IntMap;
use crate::text::str_eq;

verus! {

/// What a node is.
#[derive(Clone, Copy, PartialEq, Eq, Structural, Debug)]
pub enum VfsNodeKind {
    Regular,
    Directory,
    Symlink,
    Other,
}

/// An open file. Pipes, counters, sockets and sets of watched files are named by
/// their numbers.
pub enum FileDescriptor {
    Stdin,
    Stdout,
    Stderr,
    MemFile(MemHandle),
    MemDir { path: String, host_path: String, entries: Vec<DirEntryRecord>, offset: usize },
    Ext4Regular { ino: u32, offset: usize, readable: bool, writable: bool, append: bool },
    Ext4Dir { path: String, ino: u32, offset: usize },
    Path { logical_path: String, host_path: String, kind: VfsNodeKind, flags: u32 },
    LoopControl,
    LoopDevice { index: usize, offset: usize, readable: bool, writable: bool },
    PipeRead { pipe: u64, nonblock: bool },
    PipeWrite { pipe: u64, nonblock: bool },
    Socket { socket: u64 },
    EventFd { event: u64 },
    Epoll { epoll: u64 },
}

/// A file that is watched, and for what.
pub struct EpollInterest {
    pub fd: usize,
    pub file: FileDescriptor,
    pub events: u32,
    pub data: u64,
}

/// A set of watched files.
pub struct EpollState {
    pub interests: Vec<EpollInterest>,
}

impl EpollState {
    /// No watched files.
    pub fn new() -> (r: Self)
        ensures
            r.interests@.len() == 0,
    {
        EpollState { interests: Vec::new() }
    }
}

/// Who has to be woken.
#[derive(Clone, Copy, PartialEq, Eq, Structural, Debug)]
pub enum Wake {
    PipeReaders(u64),
    PipeWriters(u64),
    EventReaders(u64),
    EventWriters(u64),
    Io,
}

/// What somebody waits for at a pipe or counter.
#[derive(Clone, Copy, PartialEq, Eq, Structural, Debug)]
pub struct WaitKey {
    pub id: u64,
    pub event: usize,
}

/// Waiting until something can be read.
pub const WAIT_READABLE: usize = 1;

/// Waiting until something can be written.
pub const WAIT_WRITABLE: usize = 2;

/// Pipes, counters, sockets and sets of watched files, the lines of the console,
/// what is to be shown there, and who has to be woken.
pub struct Channels {
    pub pipes: IntMap<PipeState>,
    pub events: IntMap<EventFdState>,
    pub sockets: IntMap<SocketState>,
    pub epolls: IntMap<EpollState>,
    pub console: ConsoleLines,
    pub output: Vec<u8>,
    pub next_id: u64,
    pub wakes: Vec<Wake>,
}

/// All that open files stand for, and the inodes that have to be deleted.
pub struct Files {
    pub mem: MemFileSystem,
    pub vol: Ext4Volume,
    pub blocks: BlockDevices,
    pub channels: Channels,
    pub doomed: Vec<u32>,
}

impl Channels {
    /// The tables are in order, and no number was given out twice.
    pub open spec fn wf(&self) -> bool {
        &&& self.pipes.wf()
        &&& self.events.wf()
        &&& self.sockets.wf()
        &&& self.epolls.wf()
        &&& self.console.wf()
        &&& forall|k: u128| #[trigger]
            self.pipes@.contains_key(k) ==> self.pipes@[k].wf() && k < self.next_id
        &&& forall|k: u128| #[trigger] self.events@.contains_key(k) ==> k < self.next_id
        &&& forall|k: u128| #[trigger] self.sockets@.contains_key(k) ==> k < self.next_id
        &&& forall|k: u128| #[trigger] self.epolls@.contains_key(k) ==> k < self.next_id
    }

    /// Nothing is open, shown or to be woken.
    pub open spec fn is_blank(&self) -> bool {
        &&& self.pipes@ == Map::<u128, PipeState>::empty()
        &&& self.events@ == Map::<u128, EventFdState>::empty()
        &&& self.sockets@ == Map::<u128, SocketState>::empty()
        &&& self.epolls@ == Map::<u128, EpollState>::empty()
        &&& self.console@ == Map::<u128, Vec<u8>>::empty()
        &&& self.output@ == Seq::<u8>::empty()
        &&& self.next_id == 1
        &&& self.wakes@ == Seq::<Wake>::empty()
    }

    /// Nothing is open.
    pub fn new() -> (r: Self)
        ensures
            r.wf(),
            r.is_blank(),
    {
        Channels {
            pipes: IntMap::new(),
            events: IntMap::new(),
            sockets: IntMap::new(),
            epolls: IntMap::new(),
            console: ConsoleLines::new(),
            output: Vec::new(),
            next_id: 1,
            wakes: Vec::new(),
        }
    }

    /// Only one pipe, and who has to be woken, may differ.
    pub open spec fn only_pipe(&self, was: &Channels, id: u64) -> bool {
        &&& self.pipes@ == was.pipes@.insert(id as u128, self.pipes@[id as u128])
        &&& self.events == was.events
        &&& self.sockets == was.sockets
        &&& self.epolls == was.epolls
        &&& self.console == was.console
        &&& self.output == was.output
        &&& self.next_id == was.next_id
    }

    /// Only one counter, and who has to be woken, may differ.
    pub open spec fn only_event(&self, was: &Channels, id: u64) -> bool {
        &&& self.events@ == was.events@.insert(id as u128, self.events@[id as u128])
        &&& self.pipes == was.pipes
        &&& self.sockets == was.sockets
        &&& self.epolls == was.epolls
        &&& self.console == was.console
        &&& self.output == was.output
        &&& self.next_id == was.next_id
    }

    /// Only one socket, and who has to be woken, may differ.
    pub open spec fn only_socket(&self, was: &Channels, id: u64) -> bool {
        &&& self.sockets@ == was.sockets@.insert(id as u128, self.sockets@[id as u128])
        &&& self.pipes == was.pipes
        &&& self.events == was.events
        &&& self.epolls == was.epolls
        &&& self.console == was.console
        &&& self.output == was.output
        &&& self.next_id == was.next_id
    }

    /// What a read from a pipe does.
    pub open spec fn pipe_read_done(
        &self,
        was: &Channels,
        id: u64,
        before: Seq<u8>,
        after: Seq<u8>,
        r: Result<usize, SysErrNo>,
    ) -> bool {
        &&& (self.only_pipe(was, id))
        &&& (exists|wake: bool| #[trigger]
                self.pipes@[id as u128].was_read(
                    &was.pipes@[id as u128],
                    before,
                    after,
                    (r, wake),
                ) && self.wakes@ == (if wake {
                    was.wakes@.push(Wake::PipeWriters(id))
                } else {
                    was.wakes@
                }))
    }

    /// Reads from a pipe and wakes its writers, if they have to be.
    pub fn pipe_read(&mut self, id: u64, buf: &mut [u8]) -> (r: Result<usize, SysErrNo>)
        requires
            old(self).wf(),
            old(self).pipes@.contains_key(id as u128),
        ensures
            final(self).wf(),
            final(self).pipe_read_done(old(self), id, old(buf)@, final(buf)@, r),
    {
        let ghost was = self.pipes@;
        match self.pipes.remove(id as u128) {
            None => Err(SysErrNo::EBADF),
            Some(pipe) => {
                let mut pipe = pipe;
                let (r, wake) = pipe.read(buf);
                let ghost now = pipe;
                self.pipes.insert(id as u128, pipe);
                assert(self.pipes@ =~= was.insert(id as u128, now));
                if wake {
                    self.wakes.push(Wake::PipeWriters(id));
                }
                assert(self.pipes@[id as u128].was_read(
                    &was[id as u128],
                    old(buf)@,
                    buf@,
                    (r, wake),
                ));
                r
            },
        }
    }

    /// What a write into a pipe does.
    pub open spec fn pipe_write_done(
        &self,
        was: &Channels,
        id: u64,
        data: Seq<u8>,
        r: Result<usize, SysErrNo>,
    ) -> bool {
        &&& (self.only_pipe(was, id))
        &&& (exists|wake: bool| #[trigger]
                self.pipes@[id as u128].was_written(
                    &was.pipes@[id as u128],
                    data,
                    (r, wake),
                ) && self.wakes@ == (if wake {
                    was.wakes@.push(Wake::PipeReaders(id))
                } else {
                    was.wakes@
                }))
    }

    /// Writes into a pipe and wakes its readers, if they have to be.
    pub fn pipe_write(&mut self, id: u64, buf: &[u8]) -> (r: Result<usize, SysErrNo>)
        requires
            old(self).wf(),
            old(self).pipes@.contains_key(id as u128),
        ensures
            final(self).wf(),
            final(self).pipe_write_done(old(self), id, buf@, r),
    {
        let ghost was = self.pipes@;
        match self.pipes.remove(id as u128) {
            None => Err(SysErrNo::EBADF),
            Some(pipe) => {
                let mut pipe = pipe;
                let (r, wake) = pipe.write(buf);
                let ghost now = pipe;
                self.pipes.insert(id as u128, pipe);
                assert(self.pipes@ =~= was.insert(id as u128, now));
                if wake {
                    self.wakes.push(Wake::PipeReaders(id));
                }
                assert(self.pipes@[id as u128].was_written(&was[id as u128], buf@, (r, wake)));
                r
            },
        }
    }

    /// What a read of a counter does.
    pub open spec fn event_read_done(
        &self,
        was: &Channels,
        id: u64,
        before: Seq<u8>,
        after: Seq<u8>,
        r: Result<usize, SysErrNo>,
    ) -> bool {
        &&& (self.only_event(was, id))
        &&& (exists|wake: bool| #[trigger]
                self.events@[id as u128].was_read(
                    &was.events@[id as u128],
                    before,
                    after,
                    (r, wake),
                ) && self.wakes@ == (if wake {
                    was.wakes@.push(Wake::EventWriters(id))
                } else {
                    was.wakes@
                }))
    }

    /// Reads a counter and wakes its writers, if they have to be.
    pub fn event_read(&mut self, id: u64, buf: &mut [u8]) -> (r: Result<usize, SysErrNo>)
        requires
            old(self).wf(),
            old(self).events@.contains_key(id as u128),
        ensures
            final(self).wf(),
            final(self).event_read_done(old(self), id, old(buf)@, final(buf)@, r),
    {
        let ghost was = self.events@;
        match self.events.remove(id as u128) {
            None => Err(SysErrNo::EBADF),
            Some(event) => {
                let mut event = event;
                let (r, wake) = event.read(buf);
                let ghost now = event;
                self.events.insert(id as u128, event);
                assert(self.events@ =~= was.insert(id as u128, now));
                if wake {
                    self.wakes.push(Wake::EventWriters(id));
                }
                assert(self.events@[id as u128].was_read(
                    &was[id as u128],
                    old(buf)@,
                    buf@,
                    (r, wake),
                ));
                r
            },
        }
    }

    /// What a write to a counter does.
    pub open spec fn event_write_done(
        &self,
        was: &Channels,
        id: u64,
        data: Seq<u8>,
        r: Result<usize, SysErrNo>,
    ) -> bool {
        &&& (self.only_event(was, id))
        &&& (exists|wake: bool| #[trigger]
                self.events@[id as u128].was_written(
                    &was.events@[id as u128],
                    data,
                    (r, wake),
                ) && self.wakes@ == (if wake {
                    was.wakes@.push(Wake::EventReaders(id))
                } else {
                    was.wakes@
                }))
    }

    /// Adds to a counter and wakes its readers, if they have to be.
    pub fn event_write(&mut self, id: u64, buf: &[u8]) -> (r: Result<usize, SysErrNo>)
        requires
            old(self).wf(),
            old(self).events@.contains_key(id as u128),
        ensures
            final(self).wf(),
            final(self).event_write_done(old(self), id, buf@, r),
    {
        let ghost was = self.events@;
        match self.events.remove(id as u128) {
            None => Err(SysErrNo::EBADF),
            Some(event) => {
                let mut event = event;
                let (r, wake) = event.write(buf);
                let ghost now = event;
                self.events.insert(id as u128, event);
                assert(self.events@ =~= was.insert(id as u128, now));
                if wake {
                    self.wakes.push(Wake::EventReaders(id));
                }
                assert(self.events@[id as u128].was_written(&was[id as u128], buf@, (r, wake)));
                r
            },
        }
    }

    /// What a read from a socket does.
    pub open spec fn socket_read_done(
        &self,
        was: &Channels,
        id: u64,
        before: Seq<u8>,
        after: Seq<u8>,
        r: Result<usize, SysErrNo>,
    ) -> bool {
        &&& (self.only_socket(was, id))
        &&& (self.sockets@[id as u128].was_read(
                &was.sockets@[id as u128],
                before,
                after,
                r,
            ))
        &&& (self.wakes@ == (if r is Ok && r->Ok_0 > 0 {
                was.wakes@.push(Wake::Io)
            } else {
                was.wakes@
            }))
    }

    /// Reads from a socket and wakes all who wait, if something came out.
    pub fn socket_read(&mut self, id: u64, buf: &mut [u8]) -> (r: Result<usize, SysErrNo>)
        requires
            old(self).wf(),
            old(self).sockets@.contains_key(id as u128),
        ensures
            final(self).wf(),
            final(self).socket_read_done(old(self), id, old(buf)@, final(buf)@, r),
    {
        let ghost was = self.sockets@;
        match self.sockets.remove(id as u128) {
            None => Err(SysErrNo::EBADF),
            Some(socket) => {
                let mut socket = socket;
                let r = socket.read(buf);
                let ghost now = socket;
                self.sockets.insert(id as u128, socket);
                assert(self.sockets@ =~= was.insert(id as u128, now));
                match r {
                    Ok(n) => {
                        if n > 0 {
                            self.wakes.push(Wake::Io);
                        }
                    },
                    Err(_) => {},
                }
                r
            },
        }
    }

    /// Where a write to a socket goes, or why it does not.
    pub open spec fn receiver(&self, id: u64) -> Result<u64, SysErrNo> {
        let socket = self.sockets@[id as u128];
        if socket.shutdown_write {
            Err(SysErrNo::EPIPE)
        } else if socket.sock_type == SOCK_STREAM && !socket.connected {
            Err(SysErrNo::ENOTCONN)
        } else {
            match socket.peer {
                None => Err(SysErrNo::ENOTCONN),
                Some(peer) => if !self.sockets@.contains_key(peer as u128) {
                    Err(SysErrNo::ENOTCONN)
                } else if self.sockets@[peer as u128].shutdown_read {
                    Err(SysErrNo::EPIPE)
                } else {
                    Ok(peer)
                },
            }
        }
    }

    /// What a write to a socket does.
    pub open spec fn socket_write_done(
        &self,
        was: &Channels,
        id: u64,
        data: Seq<u8>,
        r: Result<usize, SysErrNo>,
    ) -> bool {
        &&& (data.len() == 0 ==> r == Ok::<usize, SysErrNo>(0) && *self == *was)
        &&& (data.len() > 0 ==> match was.receiver(id) {
                Err(e) => r == Err::<usize, SysErrNo>(e) && *self == *was,
                Ok(peer) => {
                    let now = self.sockets@[peer as u128];
                    let before = was.sockets@[peer as u128];
                    &&& r == Ok::<usize, SysErrNo>(data.len() as usize)
                    &&& self.only_socket(was, peer)
                    &&& now.rx_buf@ == before.rx_buf@ + data
                    &&& now == (SocketState { rx_buf: now.rx_buf, ..before })
                    &&& self.wakes@ == was.wakes@.push(Wake::Io)
                },
            })
    }

    /// Writes to a socket: the bytes arrive at its other end.
    pub fn socket_write(&mut self, id: u64, buf: &[u8]) -> (r: Result<usize, SysErrNo>)
        requires
            old(self).wf(),
            old(self).sockets@.contains_key(id as u128),
        ensures
            final(self).wf(),
            final(self).socket_write_done(old(self), id, buf@, r),
    {
        if buf.len() == 0 {
            return Ok(0);
        }
        let peer: u64 = match self.sockets.get(id as u128) {
            None => {
                return Err(SysErrNo::EBADF);
            },
            Some(socket) => {
                if socket.shutdown_write {
                    return Err(SysErrNo::EPIPE);
                }
                if socket.is_stream() && !socket.connected {
                    return Err(SysErrNo::ENOTCONN);
                }
                match socket.peer {
                    None => {
                        return Err(SysErrNo::ENOTCONN);
                    },
                    Some(peer) => peer,
                }
            },
        };
        match self.sockets.get(peer as u128) {
            None => {
                return Err(SysErrNo::ENOTCONN);
            },
            Some(other) => {
                if other.shutdown_read {
                    return Err(SysErrNo::EPIPE);
                }
            },
        }
        let ghost was = self.sockets@;
        match self.sockets.remove(peer as u128) {
            None => Err(SysErrNo::ENOTCONN),
            Some(other) => {
                let mut other = other;
                other.receive(buf);
                let ghost now = other;
                self.sockets.insert(peer as u128, other);
                assert(self.sockets@ =~= was.insert(peer as u128, now));
                self.wakes.push(Wake::Io);
                Ok(buf.len())
            },
        }
    }

    /// Makes a pipe: its reading and its writing end.
    pub fn create_pipe(&mut self, nonblock: bool) -> (r: (FileDescriptor, FileDescriptor))
        requires
            old(self).wf(),
            old(self).next_id < u64::MAX,
        ensures
            final(self).wf(),
            r.0 == (FileDescriptor::PipeRead { pipe: old(self).next_id, nonblock }),
            r.1 == (FileDescriptor::PipeWrite { pipe: old(self).next_id, nonblock }),
            !old(self).pipes@.contains_key(old(self).next_id as u128),
            final(self).pipes@.contains_key(old(self).next_id as u128),
            final(self).pipes@[old(self).next_id as u128].buf@.len() == 0,
            final(self).pipes@[old(self).next_id as u128].readers == 1,
            final(self).pipes@[old(self).next_id as u128].writers == 1,
            final(self).pipes@.remove(old(self).next_id as u128) == old(self).pipes@,
            final(self).next_id == old(self).next_id + 1,
            *final(self) == (Channels {
                pipes: final(self).pipes,
                next_id: final(self).next_id,
                ..*old(self)
            }),
    {
        let id: u64 = self.next_id;
        let ghost was = self.pipes@;
        assert(!was.contains_key(id as u128));
        self.pipes.insert(id as u128, PipeState::new());
        self.next_id = id + 1;
        assert(self.pipes@.remove(id as u128) =~= was);
        (
            FileDescriptor::PipeRead { pipe: id, nonblock },
            FileDescriptor::PipeWrite { pipe: id, nonblock },
        )
    }

    /// Makes an event counter.
    pub fn create_eventfd(&mut self, counter: u64, semaphore: bool, nonblock: bool) -> (r:
        FileDescriptor)
        requires
            old(self).wf(),
            old(self).next_id < u64::MAX,
        ensures
            final(self).wf(),
            r == (FileDescriptor::EventFd { event: old(self).next_id }),
            !old(self).events@.contains_key(old(self).next_id as u128),
            final(self).events@ == old(self).events@.insert(
                old(self).next_id as u128,
                EventFdState { counter, semaphore, nonblock },
            ),
            final(self).next_id == old(self).next_id + 1,
            *final(self) == (Channels {
                events: final(self).events,
                next_id: final(self).next_id,
                ..*old(self)
            }),
    {
        let id: u64 = self.next_id;
        assert(!self.events@.contains_key(id as u128));
        self.events.insert(id as u128, EventFdState::new(counter, semaphore, nonblock));
        self.next_id = id + 1;
        FileDescriptor::EventFd { event: id }
    }
}

impl Files {
    /// All parts are in order.
    pub open spec fn wf(&self) -> bool {
        &&& self.mem.wf()
        &&& self.vol.wf()
        &&& self.blocks.wf()
        &&& self.channels.wf()
    }

    /// Empty file systems, and nothing is open.
    pub open spec fn is_blank(&self) -> bool {
        &&& self.mem@ == MemFsModel::initial()
        &&& self.vol.is_new()
        &&& self.blocks.is_blank()
        &&& self.channels.is_blank()
        &&& self.doomed@ == Seq::<u32>::empty()
    }

    /// Empty file systems, and nothing is open.
    pub fn new() -> (r: Self)
        ensures
            r.wf(),
            r.is_blank(),
    {
        Files {
            mem: MemFileSystem::new(),
            vol: Ext4Volume::new(),
            blocks: BlockDevices::new(),
            channels: Channels::new(),
            doomed: Vec::new(),
        }
    }
}

impl FileDescriptor {
    /// What the file stands for is there.
    pub open spec fn wf(&self, ch: &Channels) -> bool {
        match *self {
            FileDescriptor::MemFile(h) => h.wf(),
            FileDescriptor::PipeRead { pipe, nonblock: _ } => ch.pipes@.contains_key(pipe as u128),
            FileDescriptor::PipeWrite { pipe, nonblock: _ } => ch.pipes@.contains_key(pipe as u128),
            FileDescriptor::Socket { socket } => ch.sockets@.contains_key(socket as u128),
            FileDescriptor::EventFd { event } => ch.events@.contains_key(event as u128),
            FileDescriptor::Epoll { epoll } => ch.epolls@.contains_key(epoll as u128),
            _ => true,
        }
    }

    /// Whether reading never waits, for a pipe.
    pub fn pipe_read_nonblocking(&self) -> (r: bool)
        ensures
            r == (*self is PipeRead && self->PipeRead_nonblock),
    {
        match self {
            FileDescriptor::PipeRead { pipe: _, nonblock } => *nonblock,
            _ => false,
        }
    }

    /// Whether this is the reading end of a pipe.
    pub fn is_pipe_read(&self) -> (r: bool)
        ensures
            r == (*self is PipeRead),
    {
        match self {
            FileDescriptor::PipeRead { .. } => true,
            _ => false,
        }
    }

    /// Whether writing never waits, for a pipe.
    pub fn pipe_write_nonblocking(&self) -> (r: bool)
        ensures
            r == (*self is PipeWrite && self->PipeWrite_nonblock),
    {
        match self {
            FileDescriptor::PipeWrite { pipe: _, nonblock } => *nonblock,
            _ => false,
        }
    }

    /// Whether this is the writing end of a pipe.
    pub fn is_pipe_write(&self) -> (r: bool)
        ensures
            r == (*self is PipeWrite),
    {
        match self {
            FileDescriptor::PipeWrite { .. } => true,
            _ => false,
        }
    }

    /// Whether two open files are of the same file.
    pub open spec fn same_file(&self, other: &FileDescriptor) -> bool {
        match (*self, *other) {
            (FileDescriptor::MemFile(a), FileDescriptor::MemFile(b)) => a.name@ == b.name@,
            (
                FileDescriptor::Ext4Regular { ino: a, .. },
                FileDescriptor::Ext4Regular { ino: b, .. },
            ) => a == b,
            (FileDescriptor::Path { host_path: a, .. }, FileDescriptor::Path { host_path: b, .. }) =>
            a@ == b@,
            _ => false,
        }
    }

    /// Whether two open files are of the same file.
    pub fn same_file_identity(&self, other: &FileDescriptor) -> (r: bool)
        ensures
            r == self.same_file(other),
    {
        match (self, other) {
            (FileDescriptor::MemFile(a), FileDescriptor::MemFile(b)) => str_eq(
                a.name.as_str(),
                b.name.as_str(),
            ),
            (
                FileDescriptor::Ext4Regular { ino: a, .. },
                FileDescriptor::Ext4Regular { ino: b, .. },
            ) => *a == *b,
            (FileDescriptor::Path { host_path: a, .. }, FileDescriptor::Path { host_path: b, .. }) =>
            str_eq(a.as_str(), b.as_str()),
            _ => false,
        }
    }

    /// The number of the socket, for a socket.
    pub fn socket_state(&self) -> (r: Option<u64>)
        ensures
            r == (match *self {
                FileDescriptor::Socket { socket } => Some(socket),
                _ => None,
            }),
    {
        match self {
            FileDescriptor::Socket { socket } => Some(*socket),
            _ => None,
        }
    }

    /// Whether a reader of a pipe has to wait.
    pub fn pipe_read_would_block(&self, ch: &Channels) -> (r: bool)
        requires
            ch.wf(),
            self.wf(ch),
        ensures
            r == (match *self {
                FileDescriptor::PipeRead { pipe, nonblock: _ } => ch.pipes@[pipe as u128].buf@.len()
                    == 0 && ch.pipes@[pipe as u128].writers > 0,
                _ => false,
            }),
    {
        match self {
            FileDescriptor::PipeRead { pipe, nonblock: _ } => match ch.pipes.get(*pipe as u128) {
                Some(state) => state.read_would_block(),
                None => false,
            },
            _ => false,
        }
    }

    /// Whether a writer of a pipe has to wait.
    pub fn pipe_write_would_block(&self, ch: &Channels) -> (r: bool)
        requires
            ch.wf(),
            self.wf(ch),
        ensures
            r == (match *self {
                FileDescriptor::PipeWrite { pipe, nonblock: _ } => ch.pipes@[pipe as u128].readers
                    > 0 && ch.pipes@[pipe as u128].buf@.len() >= PIPE_CAPACITY,
                _ => false,
            }),
    {
        match self {
            FileDescriptor::PipeWrite { pipe, nonblock: _ } => match ch.pipes.get(*pipe as u128) {
                Some(state) => state.write_would_block(),
                None => false,
            },
            _ => false,
        }
    }

    /// What a reader of a pipe waits for.
    pub fn pipe_read_wait_key(&self) -> (r: Option<WaitKey>)
        ensures
            r == (match *self {
                FileDescriptor::PipeRead { pipe, nonblock: _ } => Some(
                    WaitKey { id: pipe, event: WAIT_READABLE },
                ),
                _ => None,
            }),
    {
        match self {
            FileDescriptor::PipeRead { pipe, nonblock: _ } => Some(
                WaitKey { id: *pipe, event: WAIT_READABLE },
            ),
            _ => None,
        }
    }

    /// What a writer of a pipe waits for.
    pub fn pipe_write_wait_key(&self) -> (r: Option<WaitKey>)
        ensures
            r == (match *self {
                FileDescriptor::PipeWrite { pipe, nonblock: _ } => Some(
                    WaitKey { id: pipe, event: WAIT_WRITABLE },
                ),
                _ => None,
            }),
    {
        match self {
            FileDescriptor::PipeWrite { pipe, nonblock: _ } => Some(
                WaitKey { id: *pipe, event: WAIT_WRITABLE },
            ),
            _ => None,
        }
    }

    /// The counter, for a counter.
    pub open spec fn event_spec(&self, ch: &Channels) -> Option<EventFdState> {
        match *self {
            FileDescriptor::EventFd { event } => Some(ch.events@[event as u128]),
            _ => None,
        }
    }

    fn event_state(&self, ch: &Channels) -> (r: Option<EventFdState>)
        requires
            ch.wf(),
            self.wf(ch),
        ensures
            r == self.event_spec(ch),
    {
        match self {
            FileDescriptor::EventFd { event } => match ch.events.get(*event as u128) {
                Some(state) => Some(*state),
                None => None,
            },
            _ => None,
        }
    }

    /// Whether reading never waits, for a counter.
    pub fn eventfd_read_nonblocking(&self, ch: &Channels) -> (r: bool)
        requires
            ch.wf(),
            self.wf(ch),
        ensures
            r == (self.event_spec(ch) is Some && self.event_spec(ch)->0.nonblock),
    {
        match self.event_state(ch) {
            Some(state) => state.nonblock,
            None => false,
        }
    }

    /// Whether a reader of a counter has to wait.
    pub fn eventfd_read_would_block(&self, ch: &Channels) -> (r: bool)
        requires
            ch.wf(),
            self.wf(ch),
        ensures
            r == (self.event_spec(ch) is Some && self.event_spec(ch)->0.counter == 0),
    {
        match self.event_state(ch) {
            Some(state) => state.counter == 0,
            None => false,
        }
    }

    /// Whether writing never waits, for a counter.
    pub fn eventfd_write_nonblocking(&self, ch: &Channels) -> (r: bool)
        requires
            ch.wf(),
            self.wf(ch),
        ensures
            r == (self.event_spec(ch) is Some && self.event_spec(ch)->0.nonblock),
    {
        self.eventfd_read_nonblocking(ch)
    }

    /// Whether a writer of a counter waits until it has been read.
    pub fn eventfd_write_would_block(&self, ch: &Channels) -> (r: bool)
        requires
            ch.wf(),
            self.wf(ch),
        ensures
            r == (self.event_spec(ch) is Some && self.event_spec(ch)->0.counter != 0),
    {
        match self.event_state(ch) {
            Some(state) => state.counter != 0,
            None => false,
        }
    }

    /// What a reader of a counter waits for.
    pub fn eventfd_read_wait_key(&self) -> (r: Option<WaitKey>)
        ensures
            r == (match *self {
                FileDescriptor::EventFd { event } => Some(
                    WaitKey { id: event, event: WAIT_READABLE },
                ),
                _ => None,
            }),
    {
        match self {
            FileDescriptor::EventFd { event } => Some(
                WaitKey { id: *event, event: WAIT_READABLE },
            ),
            _ => None,
        }
    }

    /// What a writer of a counter waits for.
    pub fn eventfd_write_wait_key(&self) -> (r: Option<WaitKey>)
        ensures
            r == (match *self {
                FileDescriptor::EventFd { event } => Some(
                    WaitKey { id: event, event: WAIT_WRITABLE },
                ),
                _ => None,
            }),
    {
        match self {
            FileDescriptor::EventFd { event } => Some(
                WaitKey { id: *event, event: WAIT_WRITABLE },
            ),
            _ => None,
        }
    }

    /// Whether the other side is gone.
    pub fn poll_hup(&self, ch: &Channels) -> (r: bool)
        requires
            ch.wf(),
            self.wf(ch),
        ensures
            r == (match *self {
                FileDescriptor::PipeRead { pipe, nonblock: _ } => ch.pipes@[pipe as u128].writers
                    == 0,
                FileDescriptor::Socket { socket } => ch.sockets@[socket as u128].shutdown_read
                    && ch.sockets@[socket as u128].shutdown_write,
                _ => false,
            }),
    {
        match self {
            FileDescriptor::PipeRead { pipe, nonblock: _ } => match ch.pipes.get(*pipe as u128) {
                Some(state) => state.writers == 0,
                None => false,
            },
            FileDescriptor::Socket { socket } => match ch.sockets.get(*socket as u128) {
                Some(state) => state.shutdown_read && state.shutdown_write,
                None => false,
            },
            _ => false,
        }
    }

    /// Whether an error waits to be told.
    pub fn poll_error(&self, ch: &Channels) -> (r: bool)
        requires
            ch.wf(),
            self.wf(ch),
        ensures
            r == (match *self {
                FileDescriptor::PipeWrite { pipe, nonblock: _ } => ch.pipes@[pipe as u128].readers
                    == 0,
                FileDescriptor::Socket { socket } => ch.sockets@[socket as u128].error != 0,
                _ => false,
            }),
    {
        match self {
            FileDescriptor::PipeWrite { pipe, nonblock: _ } => match ch.pipes.get(*pipe as u128) {
                Some(state) => state.readers == 0,
                None => false,
            },
            FileDescriptor::Socket { socket } => match ch.sockets.get(*socket as u128) {
                Some(state) => state.error != 0,
                None => false,
            },
            _ => false,
        }
    }

    /// Whether something can be read at once.
    pub open spec fn read_ready(&self, ch: &Channels) -> bool {
        match *self {
            FileDescriptor::Stdin => true,
            FileDescriptor::MemFile(h) => h.readable,
            FileDescriptor::Ext4Regular { readable, .. } => readable,
            FileDescriptor::LoopDevice { readable, .. } => readable,
            FileDescriptor::PipeRead { pipe, nonblock: _ } => ch.pipes@[pipe as u128].buf@.len() > 0
                || ch.pipes@[pipe as u128].writers == 0,
            FileDescriptor::EventFd { event } => ch.events@[event as u128].counter != 0,
            FileDescriptor::Socket { socket } => {
                let s = ch.sockets@[socket as u128];
                s.shutdown_read || s.rx_buf@.len() > 0 || s.dgram_queue@.len() > 0
                    || s.pending@.len() > 0
            },
            _ => false,
        }
    }

    /// Whether something can be read at once.
    pub fn poll_read_ready(&self, ch: &Channels) -> (r: bool)
        requires
            ch.wf(),
            self.wf(ch),
        ensures
            r == self.read_ready(ch),
    {
        match self {
            FileDescriptor::Stdin => true,
            FileDescriptor::MemFile(h) => h.readable,
            FileDescriptor::Ext4Regular { readable, .. } => *readable,
            FileDescriptor::LoopDevice { readable, .. } => *readable,
            FileDescriptor::PipeRead { pipe, nonblock: _ } => match ch.pipes.get(*pipe as u128) {
                Some(state) => state.buf.len() > 0 || state.writers == 0,
                None => false,
            },
            FileDescriptor::EventFd { event } => match ch.events.get(*event as u128) {
                Some(state) => state.counter != 0,
                None => false,
            },
            FileDescriptor::Socket { socket } => match ch.sockets.get(*socket as u128) {
                Some(s) => s.shutdown_read || s.rx_buf.len() > 0 || s.dgram_queue.len() > 0
                    || s.pending.len() > 0,
                None => false,
            },
            _ => false,
        }
    }

    /// Whether something can be written at once.
    pub open spec fn write_ready(&self, ch: &Channels) -> bool {
        match *self {
            FileDescriptor::Stdout => true,
            FileDescriptor::Stderr => true,
            FileDescriptor::MemFile(h) => h.writable,
            FileDescriptor::Ext4Regular { writable, .. } => writable,
            FileDescriptor::LoopDevice { writable, .. } => writable,
            FileDescriptor::PipeWrite { pipe, nonblock: _ } => ch.pipes@[pipe as u128].readers > 0
                && ch.pipes@[pipe as u128].buf@.len() < PIPE_CAPACITY,
            FileDescriptor::EventFd { event } => ch.events@[event as u128].counter < u64::MAX - 1,
            FileDescriptor::Socket { socket } => {
                let s = ch.sockets@[socket as u128];
                (s.connected || s.sock_type == SOCK_DGRAM) && !s.shutdown_write && s.error == 0
            },
            _ => false,
        }
    }

    /// Whether something can be written at once.
    pub fn poll_write_ready(&self, ch: &Channels) -> (r: bool)
        requires
            ch.wf(),
            self.wf(ch),
        ensures
            r == self.write_ready(ch),
    {
        match self {
            FileDescriptor::Stdout => true,
            FileDescriptor::Stderr => true,
            FileDescriptor::MemFile(h) => h.writable,
            FileDescriptor::Ext4Regular { writable, .. } => *writable,
            FileDescriptor::LoopDevice { writable, .. } => *writable,
            FileDescriptor::PipeWrite { pipe, nonblock: _ } => match ch.pipes.get(*pipe as u128) {
                Some(state) => state.readers > 0 && state.buf.len() < PIPE_CAPACITY,
                None => false,
            },
            FileDescriptor::EventFd { event } => match ch.events.get(*event as u128) {
                Some(state) => state.counter < u64::MAX - 1,
                None => false,
            },
            FileDescriptor::Socket { socket } => match ch.sockets.get(*socket as u128) {
                Some(s) => (s.connected || s.is_datagram()) && !s.shutdown_write && s.error == 0,
                None => false,
            },
            _ => false,
        }
    }

    /// Whether the file is open for reading.
    pub open spec fn can_read(&self) -> bool {
        match *self {
            FileDescriptor::Stdin => true,
            FileDescriptor::MemFile(h) => h.readable,
            FileDescriptor::Ext4Regular { readable, .. } => readable,
            FileDescriptor::LoopDevice { readable, .. } => readable,
            FileDescriptor::PipeRead { .. } => true,
            FileDescriptor::Socket { .. } => true,
            FileDescriptor::EventFd { .. } => true,
            _ => false,
        }
    }

    /// Whether the file is open for reading.
    pub fn readable(&self) -> (r: bool)
        ensures
            r == self.can_read(),
    {
        match self {
            FileDescriptor::Stdin => true,
            FileDescriptor::MemFile(h) => h.readable,
            FileDescriptor::Ext4Regular { readable, .. } => *readable,
            FileDescriptor::LoopDevice { readable, .. } => *readable,
            FileDescriptor::PipeRead { .. } => true,
            FileDescriptor::Socket { .. } => true,
            FileDescriptor::EventFd { .. } => true,
            _ => false,
        }
    }

    /// Whether the file is open for writing.
    pub open spec fn can_write(&self) -> bool {
        match *self {
            FileDescriptor::Stdout => true,
            FileDescriptor::Stderr => true,
            FileDescriptor::MemFile(h) => h.writable,
            FileDescriptor::Ext4Regular { writable, .. } => writable,
            FileDescriptor::LoopDevice { writable, .. } => writable,
            FileDescriptor::PipeWrite { .. } => true,
            FileDescriptor::Socket { .. } => true,
            FileDescriptor::EventFd { .. } => true,
            _ => false,
        }
    }

    /// Whether the file is open for writing.
    pub fn writable(&self) -> (r: bool)
        ensures
            r == self.can_write(),
    {
        match self {
            FileDescriptor::Stdout => true,
            FileDescriptor::Stderr => true,
            FileDescriptor::MemFile(h) => h.writable,
            FileDescriptor::Ext4Regular { writable, .. } => *writable,
            FileDescriptor::LoopDevice { writable, .. } => *writable,
            FileDescriptor::PipeWrite { .. } => true,
            FileDescriptor::Socket { .. } => true,
            FileDescriptor::EventFd { .. } => true,
            _ => false,
        }
    }
}

} // verus!
