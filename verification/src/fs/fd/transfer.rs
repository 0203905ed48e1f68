//! Reading from and writing to open files.
use vstd::prelude::*;

use crate::bytes::{append_bytes, spliced};
use crate::errno::SysErrNo;
use crate::fs::block_dev::registry::LoopBacking;
use crate::fs::content::MAX_FILE_OFFSET;
use crate::fs::ext4::access::ReadFault;
use crate::fs::ext4::data::{checked_file_end, WriteFault};
use crate::fs::ext4::volume::Fault;
use crate::fs::fd::console::shown_and_held;
use crate::fs::fd::descriptor::{Channels, FileDescriptor, Files};
use crate::task::Caller;

verus! {

/// A result that no reading from disk can change.
pub open spec fn plain_read(r: Result<usize, SysErrNo>) -> Result<usize, ReadFault> {
    match r {
        Ok(n) => Ok(n),
        Err(e) => Err(ReadFault::Sys(e)),
    }
}

fn lift_read(r: Result<usize, SysErrNo>) -> (x: Result<usize, ReadFault>)
    ensures
        x == plain_read(r),
{
    match r {
        Ok(n) => Ok(n),
        Err(e) => Err(ReadFault::Sys(e)),
    }
}

/// A result that bringing a file into memory cannot change.
pub open spec fn plain_write(r: Result<usize, SysErrNo>) -> Result<usize, WriteFault> {
    match r {
        Ok(n) => Ok(n),
        Err(e) => Err(WriteFault::Sys(e)),
    }
}

fn lift_write(r: Result<usize, SysErrNo>) -> (x: Result<usize, WriteFault>)
    ensures
        x == plain_write(r),
{
    match r {
        Ok(n) => Ok(n),
        Err(e) => Err(WriteFault::Sys(e)),
    }
}

/// How many bytes a result stands for.
pub open spec fn moved<E>(r: Result<usize, E>) -> int {
    match r {
        Ok(n) => n as int,
        Err(_) => 0,
    }
}

/// An offset moved on, as far as can be counted.
pub open spec fn moved_on(offset: usize, n: int) -> usize {
    if offset + n > usize::MAX {
        usize::MAX
    } else {
        (offset + n) as usize
    }
}

impl FileDescriptor {
    /// The error for reading from or writing to a file that carries no data.
    pub open spec fn no_data_error(&self) -> Option<SysErrNo> {
        match *self {
            FileDescriptor::MemDir { .. } => Some(SysErrNo::EISDIR),
            FileDescriptor::Ext4Dir { .. } => Some(SysErrNo::EISDIR),
            FileDescriptor::Path { .. } => Some(SysErrNo::EBADF),
            FileDescriptor::LoopControl => Some(SysErrNo::ENXIO),
            FileDescriptor::Epoll { .. } => Some(SysErrNo::EBADF),
            _ => None,
        }
    }

    /// What reading on does. `input` is the byte that the console has, if any,
    /// and `disk` is what the volume's disk holds of the file from its offset on.
    pub open spec fn read_done(
        &self,
        was: &FileDescriptor,
        files: &Files,
        files_was: &Files,
        input: Option<u8>,
        before: Seq<u8>,
        after: Seq<u8>,
        disk: Seq<u8>,
        r: Result<usize, ReadFault>,
    ) -> bool {
        match *was {
            FileDescriptor::Stdin => {
                &&& *self == *was && *files == *files_was
                &&& r == Ok::<usize, ReadFault>(
                    if input is Some && before.len() > 0 {
                        1
                    } else {
                        0
                    },
                )
                &&& after == (if input is Some && before.len() > 0 {
                    spliced(before, 0, seq![input->0])
                } else {
                    before
                })
            },
            FileDescriptor::MemFile(h) => *files == *files_was && (match *self {
                FileDescriptor::MemFile(h1) => {
                    let (model, result, bytes) = h@.read_spec(files_was.mem@, before);
                    h1@ == model && r == plain_read(result) && after == bytes
                },
                _ => false,
            }),
            FileDescriptor::Ext4Regular { ino, offset, readable, writable, append } => {
                if !readable {
                    *self == *was && *files == *files_was && after == before && r == Err::<
                        usize,
                        ReadFault,
                    >(ReadFault::Sys(SysErrNo::EBADF))
                } else {
                    &&& files.vol.read_done(&files_was.vol, ino, offset, before, after, disk, r)
                    &&& *files == (Files { vol: files.vol, ..*files_was })
                    &&& *self == (FileDescriptor::Ext4Regular {
                        ino,
                        offset: moved_on(offset, moved(r)),
                        readable,
                        writable,
                        append,
                    })
                }
            },
            FileDescriptor::LoopDevice { index, offset, readable, writable } => {
                if !readable {
                    *self == *was && *files == *files_was && after == before && r == Err::<
                        usize,
                        ReadFault,
                    >(ReadFault::Sys(SysErrNo::EBADF))
                } else {
                    &&& files_was.blocks.loop_read_done(
                        files_was.mem@,
                        &files.vol,
                        &files_was.vol,
                        index,
                        offset,
                        before,
                        after,
                        disk,
                        r,
                    )
                    &&& *files == (Files { vol: files.vol, ..*files_was })
                    &&& *self == (FileDescriptor::LoopDevice {
                        index,
                        offset: moved_on(offset, moved(r)),
                        readable,
                        writable,
                    })
                }
            },
            FileDescriptor::PipeRead { pipe, nonblock: _ } => {
                &&& *self == *was
                &&& *files == (Files { channels: files.channels, ..*files_was })
                &&& exists|result: Result<usize, SysErrNo>| #[trigger]
                    files.channels.pipe_read_done(
                        &files_was.channels,
                        pipe,
                        before,
                        after,
                        result,
                    ) && r == plain_read(result)
            },
            FileDescriptor::EventFd { event } => {
                &&& *self == *was
                &&& *files == (Files { channels: files.channels, ..*files_was })
                &&& exists|result: Result<usize, SysErrNo>| #[trigger]
                    files.channels.event_read_done(
                        &files_was.channels,
                        event,
                        before,
                        after,
                        result,
                    ) && r == plain_read(result)
            },
            FileDescriptor::Socket { socket } => {
                &&& *self == *was
                &&& *files == (Files { channels: files.channels, ..*files_was })
                &&& exists|result: Result<usize, SysErrNo>| #[trigger]
                    files.channels.socket_read_done(
                        &files_was.channels,
                        socket,
                        before,
                        after,
                        result,
                    ) && r == plain_read(result)
            },
            _ => {
                &&& *self == *was && *files == *files_was && after == before
                &&& r == Err::<usize, ReadFault>(
                    ReadFault::Sys(
                        match was.no_data_error() {
                            Some(e) => e,
                            None => SysErrNo::EBADF,
                        },
                    ),
                )
            },
        }
    }

    /// Reads on. `input` is the byte that the console has, if any, and `disk` is
    /// what the volume's disk holds of the file from its offset on.
    #[verifier::rlimit(60)]
    pub fn read(&mut self, files: &mut Files, input: Option<u8>, buf: &mut [u8], disk: &[u8]) -> (r:
        Result<usize, ReadFault>)
        requires
            old(files).wf(),
            old(self).wf(&old(files).channels),
        ensures
            final(files).wf(),
            final(self).read_done(
                old(self),
                final(files),
                old(files),
                input,
                old(buf)@,
                final(buf)@,
                disk@,
                r,
            ),
    {
        match self {
            FileDescriptor::Stdin => {
                match input {
                    Some(c) => {
                        if buf.len() == 0 {
                            return Ok(0);
                        }
                        let ghost before = buf@;
                        buf[0] = c;
                        assert(buf@ =~= spliced(before, 0, seq![c]));
                        Ok(1)
                    },
                    None => Ok(0),
                }
            },
            FileDescriptor::MemFile(h) => lift_read(h.read(&files.mem, buf)),
            FileDescriptor::Ext4Regular { ino, offset, readable, writable: _, append: _ } => {
                if !*readable {
                    return Err(ReadFault::Sys(SysErrNo::EBADF));
                }
                match files.vol.ext4_read_at(*ino, *offset, buf, disk) {
                    Ok(n) => {
                        *offset = (*offset).saturating_add(n);
                        Ok(n)
                    },
                    Err(e) => Err(e),
                }
            },
            FileDescriptor::LoopDevice { index, offset, readable, writable: _ } => {
                if !*readable {
                    return Err(ReadFault::Sys(SysErrNo::EBADF));
                }
                match files.blocks.loop_read_at(
                    &files.mem,
                    &mut files.vol,
                    *index,
                    *offset,
                    buf,
                    disk,
                ) {
                    Ok(n) => {
                        *offset = (*offset).saturating_add(n);
                        Ok(n)
                    },
                    Err(e) => Err(e),
                }
            },
            FileDescriptor::PipeRead { pipe, nonblock: _ } => lift_read(
                files.channels.pipe_read(*pipe, buf),
            ),
            FileDescriptor::EventFd { event } => lift_read(files.channels.event_read(*event, buf)),
            FileDescriptor::Socket { socket } => lift_read(
                files.channels.socket_read(*socket, buf),
            ),
            FileDescriptor::MemDir { .. } => Err(ReadFault::Sys(SysErrNo::EISDIR)),
            FileDescriptor::Ext4Dir { .. } => Err(ReadFault::Sys(SysErrNo::EISDIR)),
            FileDescriptor::LoopControl => Err(ReadFault::Sys(SysErrNo::ENXIO)),
            FileDescriptor::Path { .. } => Err(ReadFault::Sys(SysErrNo::EBADF)),
            FileDescriptor::Stdout => Err(ReadFault::Sys(SysErrNo::EBADF)),
            FileDescriptor::Stderr => Err(ReadFault::Sys(SysErrNo::EBADF)),
            FileDescriptor::PipeWrite { .. } => Err(ReadFault::Sys(SysErrNo::EBADF)),
            FileDescriptor::Epoll { .. } => Err(ReadFault::Sys(SysErrNo::EBADF)),
        }
    }
}

impl FileDescriptor {
    /// The error for reading or writing at an offset of a file that has none.
    pub open spec fn no_offset_error(&self) -> SysErrNo {
        match *self {
            FileDescriptor::MemDir { .. } => SysErrNo::EISDIR,
            FileDescriptor::Ext4Dir { .. } => SysErrNo::EISDIR,
            FileDescriptor::LoopControl => SysErrNo::ENXIO,
            FileDescriptor::PipeRead { .. } => SysErrNo::ESPIPE,
            FileDescriptor::PipeWrite { .. } => SysErrNo::ESPIPE,
            FileDescriptor::Socket { .. } => SysErrNo::ESPIPE,
            _ => SysErrNo::EBADF,
        }
    }

    fn offset_error(&self) -> (e: SysErrNo)
        ensures
            e == self.no_offset_error(),
    {
        match self {
            FileDescriptor::MemDir { .. } => SysErrNo::EISDIR,
            FileDescriptor::Ext4Dir { .. } => SysErrNo::EISDIR,
            FileDescriptor::LoopControl => SysErrNo::ENXIO,
            FileDescriptor::PipeRead { .. } => SysErrNo::ESPIPE,
            FileDescriptor::PipeWrite { .. } => SysErrNo::ESPIPE,
            FileDescriptor::Socket { .. } => SysErrNo::ESPIPE,
            _ => SysErrNo::EBADF,
        }
    }

    /// What reading at an offset does. `disk` is what the volume's disk holds of
    /// the file from there on.
    pub open spec fn read_at_done(
        &self,
        was: &FileDescriptor,
        files: &Files,
        files_was: &Files,
        at: usize,
        before: Seq<u8>,
        after: Seq<u8>,
        disk: Seq<u8>,
        r: Result<usize, ReadFault>,
    ) -> bool {
        match *was {
            FileDescriptor::MemFile(h) => *files == *files_was && (match *self {
                FileDescriptor::MemFile(h1) => {
                    let (model, result, bytes) = h@.read_at_spec(
                        files_was.mem@,
                        at as nat,
                        before,
                    );
                    h1@ == model && r == plain_read(result) && after == bytes
                },
                _ => false,
            }),
            FileDescriptor::Ext4Regular { ino, offset: _, readable, writable: _, append: _ } => {
                &&& *self == *was
                &&& if !readable {
                    *files == *files_was && after == before && r == Err::<usize, ReadFault>(
                        ReadFault::Sys(SysErrNo::EBADF),
                    )
                } else {
                    &&& files.vol.read_done(&files_was.vol, ino, at, before, after, disk, r)
                    &&& *files == (Files { vol: files.vol, ..*files_was })
                }
            },
            FileDescriptor::LoopDevice { index, offset: _, readable, writable: _ } => {
                &&& *self == *was
                &&& if !readable {
                    *files == *files_was && after == before && r == Err::<usize, ReadFault>(
                        ReadFault::Sys(SysErrNo::EBADF),
                    )
                } else {
                    &&& files_was.blocks.loop_read_done(
                        files_was.mem@,
                        &files.vol,
                        &files_was.vol,
                        index,
                        at,
                        before,
                        after,
                        disk,
                        r,
                    )
                    &&& *files == (Files { vol: files.vol, ..*files_was })
                }
            },
            _ => *self == *was && *files == *files_was && after == before && r == Err::<
                usize,
                ReadFault,
            >(ReadFault::Sys(was.no_offset_error())),
        }
    }

    /// Reads at an offset. `disk` is what the volume's disk holds of the file
    /// from there on.
    pub fn read_at(&mut self, files: &mut Files, at: usize, buf: &mut [u8], disk: &[u8]) -> (r: Result<
        usize,
        ReadFault,
    >)
        requires
            old(files).wf(),
            old(self).wf(&old(files).channels),
        ensures
            final(files).wf(),
            final(self).read_at_done(
                old(self),
                final(files),
                old(files),
                at,
                old(buf)@,
                final(buf)@,
                disk@,
                r,
            ),
    {
        match self {
            FileDescriptor::MemFile(h) => lift_read(h.read_at(&files.mem, at, buf)),
            FileDescriptor::Ext4Regular { ino, offset: _, readable, writable: _, append: _ } => {
                if !*readable {
                    return Err(ReadFault::Sys(SysErrNo::EBADF));
                }
                files.vol.ext4_read_at(*ino, at, buf, disk)
            },
            FileDescriptor::LoopDevice { index, offset: _, readable, writable: _ } => {
                if !*readable {
                    return Err(ReadFault::Sys(SysErrNo::EBADF));
                }
                files.blocks.loop_read_at(&files.mem, &mut files.vol, *index, at, buf, disk)
            },
            _ => Err(ReadFault::Sys(self.offset_error())),
        }
    }

    /// What writing at an offset does. `disk` is what the volume's disk holds of
    /// the file from the start of the first page on.
    pub open spec fn write_at_done(
        &self,
        was: &FileDescriptor,
        files: &Files,
        files_was: &Files,
        caller: &Caller,
        at: usize,
        data: Seq<u8>,
        disk: Seq<u8>,
        now: u32,
        r: Result<usize, WriteFault>,
    ) -> bool {
        match *was {
            FileDescriptor::MemFile(h) => {
                let (model, mem, result) = h@.write_at_spec(
                    files_was.mem@,
                    caller.now,
                    at as nat,
                    data,
                );
                &&& *files == (Files { mem: files.mem, ..*files_was })
                &&& files.mem@ == mem
                &&& r == plain_write(result)
                &&& match *self {
                    FileDescriptor::MemFile(h1) => h1@ == model,
                    _ => false,
                }
            },
            FileDescriptor::Ext4Regular { ino, offset: _, readable: _, writable, append: _ } => {
                &&& *self == *was
                &&& if !writable {
                    *files == *files_was && r == Err::<usize, WriteFault>(
                        WriteFault::Sys(SysErrNo::EBADF),
                    )
                } else {
                    &&& files.vol.wrote_at(&files_was.vol, ino, at, data, disk, now, r)
                    &&& *files == (Files { vol: files.vol, ..*files_was })
                }
            },
            FileDescriptor::LoopDevice { index, offset: _, readable: _, writable } => {
                &&& *self == *was
                &&& if !writable {
                    *files == *files_was && r == Err::<usize, WriteFault>(
                        WriteFault::Sys(SysErrNo::EBADF),
                    )
                } else if at + data.len() > MAX_FILE_OFFSET {
                    *files == *files_was && r == Err::<usize, WriteFault>(
                        WriteFault::Sys(SysErrNo::EFBIG),
                    )
                } else {
                    &&& files_was.blocks.loop_write_done(
                        files.mem@,
                        files_was.mem@,
                        &files.vol,
                        &files_was.vol,
                        caller,
                        index,
                        at,
                        data,
                        disk,
                        now,
                        r,
                    )
                    &&& *files == (Files { mem: files.mem, vol: files.vol, ..*files_was })
                }
            },
            _ => *self == *was && *files == *files_was && r == Err::<usize, WriteFault>(
                WriteFault::Sys(was.no_offset_error()),
            ),
        }
    }

    /// Writes at an offset. `disk` is what the volume's disk holds of the file
    /// from the start of the first page on.
    pub fn write_at(
        &mut self,
        files: &mut Files,
        caller: &Caller,
        at: usize,
        buf: &[u8],
        disk: &[u8],
        now: u32,
    ) -> (r: Result<usize, WriteFault>)
        requires
            old(files).wf(),
            old(self).wf(&old(files).channels),
        ensures
            final(files).wf(),
            final(self).write_at_done(
                old(self),
                final(files),
                old(files),
                caller,
                at,
                buf@,
                disk@,
                now,
                r,
            ),
    {
        match self {
            FileDescriptor::MemFile(h) => lift_write(h.write_at(&mut files.mem, caller, at, buf)),
            FileDescriptor::Ext4Regular { ino, offset: _, readable: _, writable, append: _ } => {
                if !*writable {
                    return Err(WriteFault::Sys(SysErrNo::EBADF));
                }
                files.vol.ext4_write_at(*ino, at, buf, disk, now)
            },
            FileDescriptor::LoopDevice { index, offset: _, readable: _, writable } => {
                if !*writable {
                    return Err(WriteFault::Sys(SysErrNo::EBADF));
                }
                match checked_file_end(at, buf.len()) {
                    Ok(_) => {},
                    Err(e) => {
                        return Err(WriteFault::Sys(e));
                    },
                }
                files.blocks.loop_write_at(
                    &mut files.mem,
                    &mut files.vol,
                    caller,
                    *index,
                    at,
                    buf,
                    disk,
                    now,
                )
            },
            _ => Err(WriteFault::Sys(self.offset_error())),
        }
    }

    /// Where a write to a file of the volume starts, or why that cannot be said.
    pub open spec fn write_start(files: &Files, ino: u32, offset: usize, append: bool) -> Result<
        usize,
        Fault,
    > {
        if !append {
            Ok(offset)
        } else {
            files.vol.size_spec(ino)
        }
    }

    /// What writing on does. `writer` is the process that writes, and `disk` is
    /// what the volume's disk holds of the file from the start of the first page
    /// on.
    pub open spec fn write_done(
        &self,
        was: &FileDescriptor,
        files: &Files,
        files_was: &Files,
        caller: &Caller,
        writer: usize,
        data: Seq<u8>,
        disk: Seq<u8>,
        now: u32,
        r: Result<usize, WriteFault>,
    ) -> bool {
        match *was {
            FileDescriptor::Stdout | FileDescriptor::Stderr => {
                let (shown, held) = shown_and_held(files_was.channels.console.line_of(writer), data);
                &&& *self == *was
                &&& r == Ok::<usize, WriteFault>(data.len() as usize)
                &&& *files == (Files { channels: files.channels, ..*files_was })
                &&& files.channels == (Channels {
                    console: files.channels.console,
                    output: files.channels.output,
                    ..files_was.channels
                })
                &&& files.channels.output@ == files_was.channels.output@ + shown
                &&& files.channels.console.line_of(writer) == held
                &&& forall|w: usize|
                    w != writer ==> #[trigger] files.channels.console.line_of(w)
                        == files_was.channels.console.line_of(w)
            },
            FileDescriptor::MemFile(h) => {
                let (model, mem, result) = h@.write_spec(files_was.mem@, caller.now, data);
                &&& *files == (Files { mem: files.mem, ..*files_was })
                &&& files.mem@ == mem
                &&& r == plain_write(result)
                &&& match *self {
                    FileDescriptor::MemFile(h1) => h1@ == model,
                    _ => false,
                }
            },
            FileDescriptor::Ext4Regular { ino, offset, readable, writable, append } => {
                let start = FileDescriptor::write_start(files_was, ino, offset, append);
                if !writable {
                    *self == *was && *files == *files_was && r == Err::<usize, WriteFault>(
                        WriteFault::Sys(SysErrNo::EBADF),
                    )
                } else {
                    match start {
                        Err(Fault::Sys(e)) => *self == *was && *files == *files_was && r == Err::<
                            usize,
                            WriteFault,
                        >(WriteFault::Sys(e)),
                        Err(Fault::Need(_)) => *self == *was && *files == *files_was && r == Err::<
                            usize,
                            WriteFault,
                        >(WriteFault::NeedFile),
                        Ok(at) => {
                            &&& files.vol.wrote_at(&files_was.vol, ino, at, data, disk, now, r)
                            &&& *files == (Files { vol: files.vol, ..*files_was })
                            &&& *self == (FileDescriptor::Ext4Regular {
                                ino,
                                offset: moved_on(at, moved(r)),
                                readable,
                                writable,
                                append,
                            })
                        },
                    }
                }
            },
            FileDescriptor::LoopDevice { index, offset, readable, writable } => {
                if !writable {
                    *self == *was && *files == *files_was && r == Err::<usize, WriteFault>(
                        WriteFault::Sys(SysErrNo::EBADF),
                    )
                } else if data.len() == 0 {
                    *self == *was && *files == *files_was && r == Ok::<usize, WriteFault>(0)
                } else if offset + data.len() > MAX_FILE_OFFSET {
                    *self == *was && *files == *files_was && r == Err::<usize, WriteFault>(
                        WriteFault::Sys(SysErrNo::EFBIG),
                    )
                } else {
                    &&& files_was.blocks.loop_write_done(
                        files.mem@,
                        files_was.mem@,
                        &files.vol,
                        &files_was.vol,
                        caller,
                        index,
                        offset,
                        data,
                        disk,
                        now,
                        r,
                    )
                    &&& *files == (Files { mem: files.mem, vol: files.vol, ..*files_was })
                    &&& *self == (FileDescriptor::LoopDevice {
                        index,
                        offset: moved_on(offset, moved(r)),
                        readable,
                        writable,
                    })
                }
            },
            FileDescriptor::PipeWrite { pipe, nonblock: _ } => {
                &&& *self == *was
                &&& *files == (Files { channels: files.channels, ..*files_was })
                &&& exists|result: Result<usize, SysErrNo>| #[trigger]
                    files.channels.pipe_write_done(&files_was.channels, pipe, data, result) && r
                        == plain_write(result)
            },
            FileDescriptor::EventFd { event } => {
                &&& *self == *was
                &&& *files == (Files { channels: files.channels, ..*files_was })
                &&& exists|result: Result<usize, SysErrNo>| #[trigger]
                    files.channels.event_write_done(&files_was.channels, event, data, result) && r
                        == plain_write(result)
            },
            FileDescriptor::Socket { socket } => {
                &&& *self == *was
                &&& *files == (Files { channels: files.channels, ..*files_was })
                &&& exists|result: Result<usize, SysErrNo>| #[trigger]
                    files.channels.socket_write_done(&files_was.channels, socket, data, result) && r
                        == plain_write(result)
            },
            _ => {
                &&& *self == *was && *files == *files_was
                &&& r == Err::<usize, WriteFault>(
                    WriteFault::Sys(
                        match was.no_data_error() {
                            Some(e) => e,
                            None => SysErrNo::EBADF,
                        },
                    ),
                )
            },
        }
    }

    /// Writes on. `writer` is the process that writes, and `disk` is what the
    /// volume's disk holds of the file from the start of the first page on.
    #[verifier::rlimit(80)]
    #[verifier::spinoff_prover]
    pub fn write(
        &mut self,
        files: &mut Files,
        caller: &Caller,
        writer: usize,
        buf: &[u8],
        disk: &[u8],
        now: u32,
    ) -> (r: Result<usize, WriteFault>)
        requires
            old(files).wf(),
            old(self).wf(&old(files).channels),
        ensures
            final(files).wf(),
            final(self).write_done(
                old(self),
                final(files),
                old(files),
                caller,
                writer,
                buf@,
                disk@,
                now,
                r,
            ),
    {
        match self {
            FileDescriptor::Stdout => {
                files.channels.show(writer, buf);
                Ok(buf.len())
            },
            FileDescriptor::Stderr => {
                files.channels.show(writer, buf);
                Ok(buf.len())
            },
            FileDescriptor::MemFile(h) => lift_write(h.write(&mut files.mem, caller, buf)),
            FileDescriptor::Ext4Regular { ino, offset, readable: _, writable, append } => {
                if !*writable {
                    return Err(WriteFault::Sys(SysErrNo::EBADF));
                }
                let at: usize = if *append {
                    match files.vol.regular_file_size(*ino) {
                        Ok(size) => size,
                        Err(Fault::Sys(e)) => {
                            return Err(WriteFault::Sys(e));
                        },
                        Err(Fault::Need(_)) => {
                            return Err(WriteFault::NeedFile);
                        },
                    }
                } else {
                    *offset
                };
                *offset = at;
                match files.vol.ext4_write_at(*ino, at, buf, disk, now) {
                    Ok(n) => {
                        *offset = at.saturating_add(n);
                        Ok(n)
                    },
                    Err(e) => Err(e),
                }
            },
            FileDescriptor::LoopDevice { index, offset, readable: _, writable } => {
                if !*writable {
                    return Err(WriteFault::Sys(SysErrNo::EBADF));
                }
                if buf.len() == 0 {
                    return Ok(0);
                }
                match checked_file_end(*offset, buf.len()) {
                    Ok(_) => {},
                    Err(e) => {
                        return Err(WriteFault::Sys(e));
                    },
                }
                match files.blocks.loop_write_at(
                    &mut files.mem,
                    &mut files.vol,
                    caller,
                    *index,
                    *offset,
                    buf,
                    disk,
                    now,
                ) {
                    Ok(n) => {
                        *offset = (*offset).saturating_add(n);
                        Ok(n)
                    },
                    Err(e) => Err(e),
                }
            },
            FileDescriptor::PipeWrite { pipe, nonblock: _ } => lift_write(
                files.channels.pipe_write(*pipe, buf),
            ),
            FileDescriptor::EventFd { event } => lift_write(
                files.channels.event_write(*event, buf),
            ),
            FileDescriptor::Socket { socket } => lift_write(
                files.channels.socket_write(*socket, buf),
            ),
            FileDescriptor::MemDir { .. } => Err(WriteFault::Sys(SysErrNo::EISDIR)),
            FileDescriptor::Ext4Dir { .. } => Err(WriteFault::Sys(SysErrNo::EISDIR)),
            FileDescriptor::LoopControl => Err(WriteFault::Sys(SysErrNo::ENXIO)),
            FileDescriptor::Path { .. } => Err(WriteFault::Sys(SysErrNo::EBADF)),
            FileDescriptor::Stdin => Err(WriteFault::Sys(SysErrNo::EBADF)),
            FileDescriptor::PipeRead { .. } => Err(WriteFault::Sys(SysErrNo::EBADF)),
            FileDescriptor::Epoll { .. } => Err(WriteFault::Sys(SysErrNo::EBADF)),
        }
    }
}

impl FileDescriptor {
    /// The file of the volume that is read or written next, and from where on.
    pub open spec fn next_on_volume(&self, files: &Files, writing: bool) -> Option<(u32, usize)> {
        match *self {
            FileDescriptor::Ext4Regular { ino, offset, append, .. } => match files.vol.size_spec(ino) {
                Ok(size) => if writing && append {
                    Some((ino, size))
                } else {
                    Some((ino, offset))
                },
                Err(_) => Some((ino, offset)),
            },
            FileDescriptor::LoopDevice { index, offset, .. } => match files.blocks.shown(index) {
                Ok(LoopBacking::Ext4Regular { ino }) => Some((ino, offset)),
                _ => None,
            },
            _ => None,
        }
    }

    /// The file of the volume that is read or written next, and from where on;
    /// `None` where it is none of the volume.
    pub fn place_on_volume(&self, files: &Files, writing: bool) -> (r: Option<(u32, usize)>)
        requires
            files.wf(),
        ensures
            r == self.next_on_volume(files, writing),
    {
        match self {
            FileDescriptor::Ext4Regular { ino, offset, append, .. } => {
                match files.vol.regular_file_size(*ino) {
                    Ok(size) => if writing && *append {
                        Some((*ino, size))
                    } else {
                        Some((*ino, *offset))
                    },
                    Err(_) => Some((*ino, *offset)),
                }
            },
            FileDescriptor::LoopDevice { index, offset, .. } => {
                match files.blocks.loop_backing(*index) {
                    Ok(LoopBacking::Ext4Regular { ino }) => Some((*ino, *offset)),
                    _ => None,
                }
            },
            _ => None,
        }
    }
}

impl Channels {
    /// Takes bytes that a process writes to the console.
    pub fn show(&mut self, writer: usize, buf: &[u8])
        requires
            old(self).wf(),
        ensures
            final(self).wf(),
            *final(self) == (Channels {
                console: final(self).console,
                output: final(self).output,
                ..*old(self)
            }),
            ({
                let (shown, held) = shown_and_held(old(self).console.line_of(writer), buf@);
                &&& final(self).output@ == old(self).output@ + shown
                &&& final(self).console.line_of(writer) == held
            }),
            forall|w: usize|
                w != writer ==> #[trigger] final(self).console.line_of(w) == old(self).console.line_of(w),
    {
        let shown = self.console.write_console_buffered(writer, buf);
        append_bytes(&mut self.output, shown.as_slice());
    }
}

} // verus!
