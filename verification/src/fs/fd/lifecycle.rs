//! Copies of open files, and their closing.
use vstd::prelude::*;

use crate::fs::dirent::{copy_entries, entry_views};
use crate::fs::fd::channel::PipeState;
use crate::fs::fd::descriptor::{Channels, FileDescriptor, Files, Wake};
use crate::fs::fd::handle::MemHandle;

verus! {

impl MemHandle {
    /// An equal second one.
    pub fn copy(&self) -> (r: Self)
        requires
            self.wf(),
        ensures
            r.wf(),
            r@ == self@,
    {
        MemHandle {
            name: self.name.clone(),
            content: self.content.clone(),
            times: self.times,
            offset: self.offset,
            readable: self.readable,
            writable: self.writable,
            append: self.append,
            linked: self.linked,
            node: self.node,
        }
    }
}

/// Whether two open files are alike.
pub open spec fn alike(a: FileDescriptor, b: FileDescriptor) -> bool {
    match (a, b) {
        (FileDescriptor::MemFile(x), FileDescriptor::MemFile(y)) => x@ == y@,
        (
            FileDescriptor::MemDir { path, host_path, entries, offset },
            FileDescriptor::MemDir { path: p, host_path: h, entries: e, offset: o },
        ) => path@ == p@ && host_path@ == h@ && entry_views(entries@) == entry_views(e@) && offset
            == o,
        (
            FileDescriptor::Ext4Dir { path, ino, offset },
            FileDescriptor::Ext4Dir { path: p, ino: i, offset: o },
        ) => path@ == p@ && ino == i && offset == o,
        (
            FileDescriptor::Path { logical_path, host_path, kind, flags },
            FileDescriptor::Path { logical_path: l, host_path: h, kind: k, flags: f },
        ) => logical_path@ == l@ && host_path@ == h@ && kind == k && flags == f,
        _ => a == b,
    }
}

/// The same pipes, counters, sockets and sets exist.
pub open spec fn same_channels(a: &Channels, b: &Channels) -> bool {
    &&& a.pipes@.dom() == b.pipes@.dom()
    &&& a.events@.dom() == b.events@.dom()
    &&& a.sockets@.dom() == b.sockets@.dom()
    &&& a.epolls@.dom() == b.epolls@.dom()
}

/// A pipe with some more or fewer ends.
pub open spec fn ends_changed(now: PipeState, was: PipeState, readers: int, writers: int) -> bool {
    &&& now.buf == was.buf
    &&& now.readers == was.readers + readers
    &&& now.writers == was.writers + writers
}

impl Channels {
    /// Counts an end of a pipe.
    pub fn add_pipe_end(&mut self, id: u64, reader: bool)
        requires
            old(self).wf(),
            old(self).pipes@.contains_key(id as u128),
            old(self).pipes@[id as u128].readers < usize::MAX,
            old(self).pipes@[id as u128].writers < usize::MAX,
        ensures
            final(self).wf(),
            final(self).only_pipe(old(self), id),
            final(self).wakes == old(self).wakes,
            ends_changed(
                final(self).pipes@[id as u128],
                old(self).pipes@[id as u128],
                if reader { 1 } else { 0 },
                if reader { 0 } else { 1 },
            ),
    {
        let ghost was = self.pipes@;
        match self.pipes.remove(id as u128) {
            None => {},
            Some(pipe) => {
                let mut pipe = pipe;
                if reader {
                    pipe.readers = pipe.readers + 1;
                } else {
                    pipe.writers = pipe.writers + 1;
                }
                let ghost now = pipe;
                self.pipes.insert(id as u128, pipe);
                assert(self.pipes@ =~= was.insert(id as u128, now));
            },
        }
    }

    /// Who is woken when an end of a pipe is closed.
    pub open spec fn end_wakes(pipe: PipeState, id: u64, reader: bool) -> Seq<Wake> {
        let ends = if reader {
            pipe.readers
        } else {
            pipe.writers
        };
        if ends == 0 {
            Seq::empty()
        } else if ends == 1 {
            seq![Wake::PipeReaders(id), Wake::PipeWriters(id)]
        } else if reader {
            seq![Wake::PipeReaders(id)]
        } else {
            seq![Wake::PipeWriters(id)]
        }
    }

    /// Counts the closing of an end of a pipe and wakes who has to know.
    pub fn drop_pipe_end(&mut self, id: u64, reader: bool)
        requires
            old(self).wf(),
            old(self).pipes@.contains_key(id as u128),
        ensures
            final(self).wf(),
            final(self).only_pipe(old(self), id),
            ({
                let was = old(self).pipes@[id as u128];
                &&& ends_changed(
                    final(self).pipes@[id as u128],
                    was,
                    if reader && was.readers > 0 {
                        -1
                    } else {
                        0
                    },
                    if !reader && was.writers > 0 {
                        -1
                    } else {
                        0
                    },
                )
                &&& final(self).wakes@ == old(self).wakes@ + Channels::end_wakes(was, id, reader)
            }),
    {
        let ghost was = self.pipes@;
        let ghost woken = self.wakes@;
        match self.pipes.remove(id as u128) {
            None => {},
            Some(pipe) => {
                let mut pipe = pipe;
                let ends: usize = if reader {
                    pipe.readers
                } else {
                    pipe.writers
                };
                if ends > 0 {
                    if reader {
                        pipe.readers = ends - 1;
                    } else {
                        pipe.writers = ends - 1;
                    }
                }
                let ghost now = pipe;
                self.pipes.insert(id as u128, pipe);
                assert(self.pipes@ =~= was.insert(id as u128, now));
                if ends == 1 || (ends > 1 && reader) {
                    self.wakes.push(Wake::PipeReaders(id));
                }
                if ends == 1 || (ends > 1 && !reader) {
                    self.wakes.push(Wake::PipeWriters(id));
                }
                assert(self.wakes@ =~= woken + Channels::end_wakes(was[id as u128], id, reader));
            },
        }
    }
}

impl FileDescriptor {
    /// One more open file of this kind can be counted.
    pub open spec fn can_copy(&self, files: &Files) -> bool {
        match *self {
            FileDescriptor::Ext4Regular { ino, .. } => files.vol.files().refs(ino) < usize::MAX,
            FileDescriptor::PipeRead { pipe, .. } => files.channels.pipes@[pipe as u128].readers
                < usize::MAX && files.channels.pipes@[pipe as u128].writers < usize::MAX,
            FileDescriptor::PipeWrite { pipe, .. } => files.channels.pipes@[pipe as u128].readers
                < usize::MAX && files.channels.pipes@[pipe as u128].writers < usize::MAX,
            _ => true,
        }
    }

    /// What making a copy of an open file counts.
    pub open spec fn copied(&self, files: &Files, was: &Files) -> bool {
        match *self {
            FileDescriptor::Ext4Regular { ino, .. } => {
                &&& *files == (Files { vol: files.vol, ..*was })
                &&& files.vol.same_names(&was.vol)
                &&& files.vol.files() == was.vol.files().opened(ino)
            },
            FileDescriptor::PipeRead { pipe, .. } => {
                &&& *files == (Files { channels: files.channels, ..*was })
                &&& files.channels.only_pipe(&was.channels, pipe)
                &&& files.channels.wakes == was.channels.wakes
                &&& ends_changed(
                    files.channels.pipes@[pipe as u128],
                    was.channels.pipes@[pipe as u128],
                    1,
                    0,
                )
            },
            FileDescriptor::PipeWrite { pipe, .. } => {
                &&& *files == (Files { channels: files.channels, ..*was })
                &&& files.channels.only_pipe(&was.channels, pipe)
                &&& files.channels.wakes == was.channels.wakes
                &&& ends_changed(
                    files.channels.pipes@[pipe as u128],
                    was.channels.pipes@[pipe as u128],
                    0,
                    1,
                )
            },
            _ => *files == *was,
        }
    }

    /// An equal second open file.
    pub fn duplicate(&self, files: &mut Files) -> (r: FileDescriptor)
        requires
            old(files).wf(),
            self.wf(&old(files).channels),
            self.can_copy(old(files)),
        ensures
            final(files).wf(),
            alike(r, *self),
            r.wf(&final(files).channels),
            self.copied(final(files), old(files)),
            same_channels(&final(files).channels, &old(files).channels),
    {
        let ghost was = *files;
        match self {
            FileDescriptor::Stdin => FileDescriptor::Stdin,
            FileDescriptor::Stdout => FileDescriptor::Stdout,
            FileDescriptor::Stderr => FileDescriptor::Stderr,
            FileDescriptor::MemFile(h) => FileDescriptor::MemFile(h.copy()),
            FileDescriptor::MemDir { path, host_path, entries, offset } => FileDescriptor::MemDir {
                path: path.clone(),
                host_path: host_path.clone(),
                entries: copy_entries(entries),
                offset: *offset,
            },
            FileDescriptor::Ext4Regular { ino, offset, readable, writable, append } => {
                files.vol.open_regular_ino(*ino);
                FileDescriptor::Ext4Regular {
                    ino: *ino,
                    offset: *offset,
                    readable: *readable,
                    writable: *writable,
                    append: *append,
                }
            },
            FileDescriptor::Ext4Dir { path, ino, offset } => FileDescriptor::Ext4Dir {
                path: path.clone(),
                ino: *ino,
                offset: *offset,
            },
            FileDescriptor::Path { logical_path, host_path, kind, flags } => FileDescriptor::Path {
                logical_path: logical_path.clone(),
                host_path: host_path.clone(),
                kind: *kind,
                flags: *flags,
            },
            FileDescriptor::LoopControl => FileDescriptor::LoopControl,
            FileDescriptor::LoopDevice { index, offset, readable, writable } =>
            FileDescriptor::LoopDevice {
                index: *index,
                offset: *offset,
                readable: *readable,
                writable: *writable,
            },
            FileDescriptor::PipeRead { pipe, nonblock } => {
                files.channels.add_pipe_end(*pipe, true);
                assert(files.channels.pipes@.dom() =~= was.channels.pipes@.dom());
                FileDescriptor::PipeRead { pipe: *pipe, nonblock: *nonblock }
            },
            FileDescriptor::PipeWrite { pipe, nonblock } => {
                files.channels.add_pipe_end(*pipe, false);
                assert(files.channels.pipes@.dom() =~= was.channels.pipes@.dom());
                FileDescriptor::PipeWrite { pipe: *pipe, nonblock: *nonblock }
            },
            FileDescriptor::Socket { socket } => FileDescriptor::Socket { socket: *socket },
            FileDescriptor::EventFd { event } => FileDescriptor::EventFd { event: *event },
            FileDescriptor::Epoll { epoll } => FileDescriptor::Epoll { epoll: *epoll },
        }
    }

    /// What closing an open file does.
    pub open spec fn closed(&self, files: &Files, was: &Files) -> bool {
        match *self {
            FileDescriptor::Ext4Regular { ino, .. } => {
                let (after, delete) = was.vol.files().closed_once(ino);
                &&& *files == (Files { vol: files.vol, doomed: files.doomed, ..*was })
                &&& files.vol.same_names(&was.vol)
                &&& files.vol.files() == after
                &&& files.doomed@ == (if delete {
                    was.doomed@.push(ino)
                } else {
                    was.doomed@
                })
            },
            FileDescriptor::PipeRead { pipe, .. } => {
                let p = was.channels.pipes@[pipe as u128];
                &&& *files == (Files { channels: files.channels, ..*was })
                &&& files.channels.only_pipe(&was.channels, pipe)
                &&& ends_changed(
                    files.channels.pipes@[pipe as u128],
                    p,
                    if p.readers > 0 {
                        -1
                    } else {
                        0
                    },
                    0,
                )
                &&& files.channels.wakes@ == was.channels.wakes@ + Channels::end_wakes(
                    p,
                    pipe,
                    true,
                )
            },
            FileDescriptor::PipeWrite { pipe, .. } => {
                let p = was.channels.pipes@[pipe as u128];
                &&& *files == (Files { channels: files.channels, ..*was })
                &&& files.channels.only_pipe(&was.channels, pipe)
                &&& ends_changed(
                    files.channels.pipes@[pipe as u128],
                    p,
                    0,
                    if p.writers > 0 {
                        -1
                    } else {
                        0
                    },
                )
                &&& files.channels.wakes@ == was.channels.wakes@ + Channels::end_wakes(
                    p,
                    pipe,
                    false,
                )
            },
            FileDescriptor::Socket { .. } => *files == (Files {
                channels: Channels { wakes: files.channels.wakes, ..was.channels },
                ..*was
            }) && files.channels.wakes@ == was.channels.wakes@.push(Wake::Io),
            FileDescriptor::EventFd { event } => *files == (Files {
                channels: Channels { wakes: files.channels.wakes, ..was.channels },
                ..*was
            }) && files.channels.wakes@ == was.channels.wakes@.push(Wake::EventReaders(event)).push(
                Wake::EventWriters(event),
            ).push(Wake::Io),
            _ => *files == *was,
        }
    }

    /// Closes an open file. A file of the volume that has to be deleted now is
    /// noted as such.
    pub fn close(self, files: &mut Files)
        requires
            old(files).wf(),
            self.wf(&old(files).channels),
        ensures
            final(files).wf(),
            self.closed(final(files), old(files)),
            same_channels(&final(files).channels, &old(files).channels),
    {
        let ghost was = *files;
        match self {
            FileDescriptor::PipeRead { pipe, .. } => {
                files.channels.drop_pipe_end(pipe, true);
                assert(files.channels.pipes@.dom() =~= was.channels.pipes@.dom());
            },
            FileDescriptor::PipeWrite { pipe, .. } => {
                files.channels.drop_pipe_end(pipe, false);
                assert(files.channels.pipes@.dom() =~= was.channels.pipes@.dom());
            },
            FileDescriptor::Socket { .. } => {
                files.channels.wakes.push(Wake::Io);
            },
            FileDescriptor::EventFd { event } => {
                files.channels.wakes.push(Wake::EventReaders(event));
                files.channels.wakes.push(Wake::EventWriters(event));
                files.channels.wakes.push(Wake::Io);
            },
            FileDescriptor::Ext4Regular { ino, .. } => {
                if files.vol.close_regular_ino(ino) {
                    files.doomed.push(ino);
                }
            },
            _ => {},
        }
    }
}

/// Closing a copy of an end of a pipe leaves as many ends as there were before
/// the copy was made.
pub proof fn copy_then_close_counts(
    fd: FileDescriptor,
    pipe: u64,
    was: &Files,
    mid: &Files,
    after: &Files,
)
    requires
        fd is PipeRead && fd->PipeRead_pipe == pipe || fd is PipeWrite && fd->PipeWrite_pipe == pipe,
        fd.copied(mid, was),
        fd.closed(after, mid),
    ensures
        after.channels.pipes@[pipe as u128].readers == was.channels.pipes@[pipe as u128].readers,
        after.channels.pipes@[pipe as u128].writers == was.channels.pipes@[pipe as u128].writers,
        after.channels.pipes@[pipe as u128].buf == was.channels.pipes@[pipe as u128].buf,
{
}

} // verus!
