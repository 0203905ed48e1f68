//! Offsets, lengths, listings, copies and closing of open files.
use vstd::prelude::*;

use crate::bytes::spliced;
use crate::errno::SysErrNo;
use crate::fs::content::MAX_FILE_OFFSET;
use crate::fs::dirent::DirEntryRecord;
use crate::fs::ext4::data::{checked_file_end, TruncateWork};
use crate::fs::ext4::listing::listed_at;
use crate::fs::ext4::volume::{Fault, Load};
use crate::fs::fd::channel::{EventFdState, SocketState};
use crate::fs::fd::descriptor::{Channels, FileDescriptor, Files};
use crate::fs::fd::dirents::{out_views, packed, put_records, OutEntry, OutModel};
use crate::fs::fd::handle::MemHandle;
use crate::fs::fd::open_flags::O_APPEND;
use crate::fs::fd::pipe_flags::O_NONBLOCK;
use crate::task::Caller;

verus! {

/// An offset moved by some bytes, if it is one of a file then.
pub open spec fn seek_from(base: usize, delta: isize) -> Result<usize, SysErrNo> {
    if base + delta < 0 || base + delta > MAX_FILE_OFFSET {
        Err(SysErrNo::EINVAL)
    } else {
        Ok((base + delta) as usize)
    }
}

fn checked_seek_from(base: usize, delta: isize) -> (r: Result<usize, SysErrNo>)
    ensures
        r == seek_from(base, delta),
{
    let next: i128 = base as i128 + delta as i128;
    if next < 0 || next > MAX_FILE_OFFSET as i128 {
        Err(SysErrNo::EINVAL)
    } else {
        Ok(next as usize)
    }
}

/// Where a seek leads: from the start, the current offset or the end.
pub open spec fn seek_target(cur: usize, end: usize, delta: isize, whence: usize) -> Result<
    usize,
    SysErrNo,
> {
    if whence == 0 {
        seek_from(0, delta)
    } else if whence == 1 {
        seek_from(cur, delta)
    } else if whence == 2 {
        seek_from(end, delta)
    } else {
        Err(SysErrNo::EINVAL)
    }
}

fn sought(cur: usize, end: usize, delta: isize, whence: usize) -> (r: Result<usize, SysErrNo>)
    ensures
        r == seek_target(cur, end, delta, whence),
{
    if whence == 0 {
        checked_seek_from(0, delta)
    } else if whence == 1 {
        checked_seek_from(cur, delta)
    } else if whence == 2 {
        checked_seek_from(end, delta)
    } else {
        Err(SysErrNo::EINVAL)
    }
}

/// A result that reading from disk cannot change.
pub open spec fn plain_fault<T>(r: Result<T, SysErrNo>) -> Result<T, Fault> {
    match r {
        Ok(x) => Ok(x),
        Err(e) => Err(Fault::Sys(e)),
    }
}

impl FileDescriptor {
    /// Where a seek on a file leads.
    pub open spec fn seek_spec(&self, files: &Files, delta: isize, whence: usize) -> Result<
        usize,
        Fault,
    > {
        match *self {
            FileDescriptor::MemFile(h) => plain_fault(
                seek_target(h.offset, h.content@.len() as usize, delta, whence),
            ),
            FileDescriptor::Ext4Regular { ino, offset, .. } => match files.vol.size_spec(ino) {
                Err(f) => Err(f),
                Ok(size) => plain_fault(seek_target(offset, size, delta, whence)),
            },
            FileDescriptor::MemDir { entries, offset, .. } => match seek_target(
                offset,
                entries@.len() as usize,
                delta,
                whence,
            ) {
                Err(e) => Err(Fault::Sys(e)),
                Ok(at) => if at > entries@.len() {
                    Err(Fault::Sys(SysErrNo::EINVAL))
                } else {
                    Ok(at)
                },
            },
            FileDescriptor::LoopDevice { index, offset, .. } => match files.blocks.loop_size_spec(
                &files.mem,
                &files.vol,
                index,
            ) {
                Err(f) => Err(f),
                Ok(size) => plain_fault(seek_target(offset, size, delta, whence)),
            },
            FileDescriptor::Path { .. } => Err(Fault::Sys(SysErrNo::EBADF)),
            _ => Err(Fault::Sys(SysErrNo::ESPIPE)),
        }
    }

    /// A file with another offset.
    pub open spec fn at_offset(&self, at: usize) -> FileDescriptor {
        match *self {
            FileDescriptor::MemFile(h) => FileDescriptor::MemFile(MemHandle { offset: at, ..h }),
            FileDescriptor::Ext4Regular { ino, offset: _, readable, writable, append } =>
            FileDescriptor::Ext4Regular { ino, offset: at, readable, writable, append },
            FileDescriptor::MemDir { path, host_path, entries, offset: _ } =>
            FileDescriptor::MemDir { path, host_path, entries, offset: at },
            FileDescriptor::Ext4Dir { path, ino, offset: _ } => FileDescriptor::Ext4Dir {
                path,
                ino,
                offset: at,
            },
            FileDescriptor::LoopDevice { index, offset: _, readable, writable } =>
            FileDescriptor::LoopDevice { index, offset: at, readable, writable },
            other => other,
        }
    }

    /// Moves the offset.
    pub fn seek_signed(&mut self, files: &Files, delta: isize, whence: usize) -> (r: Result<
        usize,
        Fault,
    >)
        requires
            files.wf(),
        ensures
            r == old(self).seek_spec(files, delta, whence),
            *final(self) == (match r {
                Ok(at) => old(self).at_offset(at),
                Err(_) => *old(self),
            }),
    {
        match self {
            FileDescriptor::MemFile(h) => match sought(h.offset, h.content.len(), delta, whence) {
                Ok(at) => {
                    h.offset = at;
                    Ok(at)
                },
                Err(e) => Err(Fault::Sys(e)),
            },
            FileDescriptor::Ext4Regular { ino, offset, .. } => {
                let size: usize = match files.vol.regular_file_size(*ino) {
                    Ok(size) => size,
                    Err(f) => {
                        return Err(f);
                    },
                };
                match sought(*offset, size, delta, whence) {
                    Ok(at) => {
                        *offset = at;
                        Ok(at)
                    },
                    Err(e) => Err(Fault::Sys(e)),
                }
            },
            FileDescriptor::MemDir { entries, offset, .. } => {
                let end: usize = entries.len();
                match sought(*offset, end, delta, whence) {
                    Ok(at) => {
                        if at > end {
                            return Err(Fault::Sys(SysErrNo::EINVAL));
                        }
                        *offset = at;
                        Ok(at)
                    },
                    Err(e) => Err(Fault::Sys(e)),
                }
            },
            FileDescriptor::LoopDevice { index, offset, .. } => {
                let size: usize = match files.blocks.loop_size(&files.mem, &files.vol, *index) {
                    Ok(size) => size,
                    Err(f) => {
                        return Err(f);
                    },
                };
                match sought(*offset, size, delta, whence) {
                    Ok(at) => {
                        *offset = at;
                        Ok(at)
                    },
                    Err(e) => Err(Fault::Sys(e)),
                }
            },
            FileDescriptor::Path { .. } => Err(Fault::Sys(SysErrNo::EBADF)),
            _ => Err(Fault::Sys(SysErrNo::ESPIPE)),
        }
    }

    /// Moves the offset forward.
    pub fn seek(&mut self, files: &Files, offset: usize, whence: usize) -> (r: Result<usize, Fault>)
        requires
            files.wf(),
        ensures
            r == (if offset > MAX_FILE_OFFSET {
                Err::<usize, Fault>(Fault::Sys(SysErrNo::EINVAL))
            } else {
                old(self).seek_spec(files, offset as isize, whence)
            }),
            *final(self) == (match r {
                Ok(at) => old(self).at_offset(at),
                Err(_) => *old(self),
            }),
    {
        if offset > MAX_FILE_OFFSET {
            return Err(Fault::Sys(SysErrNo::EINVAL));
        }
        self.seek_signed(files, offset as isize, whence)
    }

    /// The size of what a file stands for.
    pub open spec fn size_spec(&self, files: &Files) -> Result<usize, Load> {
        match *self {
            FileDescriptor::MemFile(h) => Ok(h@.size_spec(files.mem@) as usize),
            FileDescriptor::MemDir { entries, .. } => Ok(entries@.len() as usize),
            FileDescriptor::Ext4Regular { ino, .. } => match files.vol.size_spec(ino) {
                Ok(size) => Ok(size),
                Err(Fault::Sys(_)) => Ok(0),
                Err(Fault::Need(load)) => Err(load),
            },
            FileDescriptor::LoopDevice { index, .. } => match files.blocks.loop_size_spec(
                &files.mem,
                &files.vol,
                index,
            ) {
                Ok(size) => Ok(size),
                Err(Fault::Sys(_)) => Ok(0),
                Err(Fault::Need(load)) => Err(load),
            },
            FileDescriptor::PipeRead { pipe, .. } => Ok(
                files.channels.pipes@[pipe as u128].buf@.len() as usize,
            ),
            FileDescriptor::PipeWrite { pipe, .. } => Ok(
                files.channels.pipes@[pipe as u128].buf@.len() as usize,
            ),
            FileDescriptor::EventFd { .. } => Ok(8),
            _ => Ok(0),
        }
    }

    /// The size of what a file stands for.
    pub fn size(&self, files: &Files) -> (r: Result<usize, Load>)
        requires
            files.wf(),
            self.wf(&files.channels),
        ensures
            r == self.size_spec(files),
    {
        match self {
            FileDescriptor::MemFile(h) => Ok(h.size(&files.mem)),
            FileDescriptor::MemDir { entries, .. } => Ok(entries.len()),
            FileDescriptor::Ext4Regular { ino, .. } => match files.vol.regular_file_size(*ino) {
                Ok(size) => Ok(size),
                Err(Fault::Sys(_)) => Ok(0),
                Err(Fault::Need(load)) => Err(load),
            },
            FileDescriptor::LoopDevice { index, .. } => match files.blocks.loop_size(
                &files.mem,
                &files.vol,
                *index,
            ) {
                Ok(size) => Ok(size),
                Err(Fault::Sys(_)) => Ok(0),
                Err(Fault::Need(load)) => Err(load),
            },
            FileDescriptor::PipeRead { pipe, .. } => match files.channels.pipes.get(*pipe as u128) {
                Some(state) => Ok(state.buf.len()),
                None => Ok(0),
            },
            FileDescriptor::PipeWrite { pipe, .. } => match files.channels.pipes.get(*pipe as u128) {
                Some(state) => Ok(state.buf.len()),
                None => Ok(0),
            },
            FileDescriptor::EventFd { .. } => Ok(8),
            _ => Ok(0),
        }
    }

    /// What setting the length does.
    pub open spec fn truncate_done(
        &self,
        was: &FileDescriptor,
        files: &Files,
        files_was: &Files,
        caller: &Caller,
        new_len: usize,
        readonly: SysErrNo,
        now: u32,
        r: Result<TruncateWork, Fault>,
    ) -> bool {
        if new_len > MAX_FILE_OFFSET {
            *self == *was && *files == *files_was && r == Err::<TruncateWork, Fault>(
                Fault::Sys(SysErrNo::EFBIG),
            )
        } else {
            match *was {
                FileDescriptor::MemFile(h) => {
                    let (model, mem, result) = h@.truncate_spec(
                        files_was.mem@,
                        caller.now,
                        new_len as nat,
                        readonly,
                    );
                    &&& *files == (Files { mem: files.mem, ..*files_was })
                    &&& files.mem@ == mem
                    &&& r == (match result {
                        Ok(_) => Ok::<TruncateWork, Fault>(TruncateWork::Cached),
                        Err(e) => Err(Fault::Sys(e)),
                    })
                    &&& match *self {
                        FileDescriptor::MemFile(h1) => h1@ == model,
                        _ => false,
                    }
                },
                FileDescriptor::Ext4Regular { ino, writable, .. } => {
                    &&& *self == *was
                    &&& if !writable {
                        *files == *files_was && r == Err::<TruncateWork, Fault>(Fault::Sys(readonly))
                    } else {
                        &&& *files == (Files { vol: files.vol, ..*files_was })
                        &&& files.vol.truncate_done(&files_was.vol, ino, new_len as u64, now, r)
                    }
                },
                FileDescriptor::MemDir { .. } | FileDescriptor::Ext4Dir { .. } => *self == *was
                    && *files == *files_was && r == Err::<TruncateWork, Fault>(
                    Fault::Sys(SysErrNo::EISDIR),
                ),
                FileDescriptor::Path { .. } => *self == *was && *files == *files_was && r == Err::<
                    TruncateWork,
                    Fault,
                >(Fault::Sys(SysErrNo::EBADF)),
                _ => *self == *was && *files == *files_was && r == Err::<TruncateWork, Fault>(
                    Fault::Sys(SysErrNo::EINVAL),
                ),
            }
        }
    }

    /// Sets the length; `readonly` is the error for a file not open for writing.
    /// The result is what remains to be done on disk.
    pub fn truncate_with_readonly_errno(
        &mut self,
        files: &mut Files,
        caller: &Caller,
        new_len: usize,
        readonly: SysErrNo,
        now: u32,
    ) -> (r: Result<TruncateWork, Fault>)
        requires
            old(files).wf(),
            old(self).wf(&old(files).channels),
        ensures
            final(files).wf(),
            final(self).truncate_done(
                old(self),
                final(files),
                old(files),
                caller,
                new_len,
                readonly,
                now,
                r,
            ),
    {
        if new_len > MAX_FILE_OFFSET {
            return Err(Fault::Sys(SysErrNo::EFBIG));
        }
        match self {
            FileDescriptor::MemFile(h) => match h.truncate_with_readonly_errno(
                &mut files.mem,
                caller,
                new_len,
                readonly,
            ) {
                Ok(_) => Ok(TruncateWork::Cached),
                Err(e) => Err(Fault::Sys(e)),
            },
            FileDescriptor::Ext4Regular { ino, writable, .. } => {
                if !*writable {
                    return Err(Fault::Sys(readonly));
                }
                files.vol.truncate_regular_ino(*ino, new_len as u64, now)
            },
            FileDescriptor::MemDir { .. } => Err(Fault::Sys(SysErrNo::EISDIR)),
            FileDescriptor::Ext4Dir { .. } => Err(Fault::Sys(SysErrNo::EISDIR)),
            FileDescriptor::Path { .. } => Err(Fault::Sys(SysErrNo::EBADF)),
            _ => Err(Fault::Sys(SysErrNo::EINVAL)),
        }
    }

    /// Sets the length of a file that was opened by its path.
    pub fn truncate(&mut self, files: &mut Files, caller: &Caller, new_len: usize, now: u32) -> (r:
        Result<TruncateWork, Fault>)
        requires
            old(files).wf(),
            old(self).wf(&old(files).channels),
        ensures
            final(files).wf(),
            final(self).truncate_done(
                old(self),
                final(files),
                old(files),
                caller,
                new_len,
                SysErrNo::EBADF,
                now,
                r,
            ),
    {
        self.truncate_with_readonly_errno(files, caller, new_len, SysErrNo::EBADF, now)
    }

    /// Sets the length of an open file.
    pub fn ftruncate(&mut self, files: &mut Files, caller: &Caller, new_len: usize, now: u32) -> (r:
        Result<TruncateWork, Fault>)
        requires
            old(files).wf(),
            old(self).wf(&old(files).channels),
        ensures
            final(files).wf(),
            final(self).truncate_done(
                old(self),
                final(files),
                old(files),
                caller,
                new_len,
                SysErrNo::EINVAL,
                now,
                r,
            ),
    {
        self.truncate_with_readonly_errno(files, caller, new_len, SysErrNo::EINVAL, now)
    }

    /// The error for reserving room in a file that has none to reserve.
    pub open spec fn no_room_error(&self) -> SysErrNo {
        match *self {
            FileDescriptor::MemDir { .. } => SysErrNo::EISDIR,
            FileDescriptor::Ext4Dir { .. } => SysErrNo::EISDIR,
            FileDescriptor::Path { .. } => SysErrNo::EBADF,
            FileDescriptor::PipeRead { .. } => SysErrNo::ESPIPE,
            FileDescriptor::PipeWrite { .. } => SysErrNo::ESPIPE,
            _ => SysErrNo::EINVAL,
        }
    }

    /// Whether room was made in a file, and what came of it.
    pub open spec fn space_allocated(
        &self,
        was: &Self,
        files: &Files,
        files_was: &Files,
        caller: &Caller,
        offset: usize,
        len: usize,
        keep_size: bool,
        now: u32,
        r: Result<TruncateWork, Fault>,
    ) -> bool {
        &&& (len == 0 ==> r == Err::<TruncateWork, Fault>(Fault::Sys(SysErrNo::EINVAL)) && *self
                == *was && *files == *files_was)
        &&& (len > 0 && offset + len > MAX_FILE_OFFSET ==> r == Err::<TruncateWork, Fault>(
                Fault::Sys(SysErrNo::EFBIG),
            ) && *self == *was && *files == *files_was)
        &&& (len > 0 && offset + len <= MAX_FILE_OFFSET ==> {
                if !(*was is MemFile || *was is Ext4Regular) {
                    r == Err::<TruncateWork, Fault>(Fault::Sys(was.no_room_error()))
                        && *self == *was && *files == *files_was
                } else {
                    match was.size_spec(files_was) {
                        Err(load) => r == Err::<TruncateWork, Fault>(Fault::Need(load)) && *self
                            == *was && *files == *files_was,
                        Ok(size) => self.truncate_done(
                            was,
                            files,
                            files_was,
                            caller,
                            if keep_size || size > offset + len {
                                size
                            } else {
                                (offset + len) as usize
                            },
                            SysErrNo::EBADF,
                            now,
                            r,
                        ),
                    }
                }
            })
    }

    /// Makes a file at least as long as a range, unless its size is to be kept.
    pub fn allocate(
        &mut self,
        files: &mut Files,
        caller: &Caller,
        offset: usize,
        len: usize,
        keep_size: bool,
        now: u32,
    ) -> (r: Result<TruncateWork, Fault>)
        requires
            old(files).wf(),
            old(self).wf(&old(files).channels),
        ensures
            final(files).wf(),
            final(self).space_allocated(
                old(self),
                final(files),
                old(files),
                caller,
                offset,
                len,
                keep_size,
                now,
                r,
            ),
    {
        if len == 0 {
            return Err(Fault::Sys(SysErrNo::EINVAL));
        }
        let end: usize = match checked_file_end(offset, len) {
            Ok(end) => end,
            Err(e) => {
                return Err(Fault::Sys(e));
            },
        };
        let resizable = match self {
            FileDescriptor::MemFile(_) => true,
            FileDescriptor::Ext4Regular { .. } => true,
            FileDescriptor::MemDir { .. } => {
                return Err(Fault::Sys(SysErrNo::EISDIR));
            },
            FileDescriptor::Ext4Dir { .. } => {
                return Err(Fault::Sys(SysErrNo::EISDIR));
            },
            FileDescriptor::Path { .. } => {
                return Err(Fault::Sys(SysErrNo::EBADF));
            },
            FileDescriptor::PipeRead { .. } => {
                return Err(Fault::Sys(SysErrNo::ESPIPE));
            },
            FileDescriptor::PipeWrite { .. } => {
                return Err(Fault::Sys(SysErrNo::ESPIPE));
            },
            _ => false,
        };
        if !resizable {
            return Err(Fault::Sys(SysErrNo::EINVAL));
        }
        let current: usize = match self.size(files) {
            Ok(size) => size,
            Err(load) => {
                return Err(Fault::Need(load));
            },
        };
        let target: usize = if keep_size || current > end {
            current
        } else {
            end
        };
        self.truncate(files, caller, target, now)
    }

    /// Which file of the volume has to be brought to disk, if any.
    pub fn sync(&self) -> (r: Result<Option<u32>, SysErrNo>)
        ensures
            r == (match *self {
                FileDescriptor::Ext4Regular { ino, .. } => Ok::<Option<u32>, SysErrNo>(Some(ino)),
                FileDescriptor::PipeRead { .. } => Err(SysErrNo::EINVAL),
                FileDescriptor::PipeWrite { .. } => Err(SysErrNo::EINVAL),
                _ => Ok(None),
            }),
    {
        match self {
            FileDescriptor::Ext4Regular { ino, .. } => Ok(Some(*ino)),
            FileDescriptor::PipeRead { .. } => Err(SysErrNo::EINVAL),
            FileDescriptor::PipeWrite { .. } => Err(SysErrNo::EINVAL),
            _ => Ok(None),
        }
    }

    /// The entries of an open directory, as they are handed out.
    pub open spec fn out_entries(&self, files: &Files) -> Result<Seq<OutModel>, Fault> {
        match *self {
            FileDescriptor::MemDir { entries, .. } => Ok(
                Seq::new(
                    entries@.len(),
                    |i: int|
                        OutModel {
                            ino: (i + 1) as u64,
                            name: entries@[i].name@,
                            is_dir: entries@[i].is_dir,
                        },
                ),
            ),
            FileDescriptor::Ext4Dir { ino, .. } => match listed_at(&files.vol.names, ino) {
                Err(f) => Err(f),
                Ok(list) => Ok(
                    Seq::new(
                        list.len(),
                        |i: int| OutModel { ino: list[i].1 as u64, name: list[i].0, is_dir: list[i].2 },
                    ),
                ),
            },
            FileDescriptor::Path { .. } => Err(Fault::Sys(SysErrNo::EBADF)),
            _ => Err(Fault::Sys(SysErrNo::ENOTDIR)),
        }
    }

    /// The offset of an open directory.
    pub open spec fn dir_offset(&self) -> usize {
        match *self {
            FileDescriptor::MemDir { offset, .. } => offset,
            FileDescriptor::Ext4Dir { offset, .. } => offset,
            _ => 0,
        }
    }

    /// Whether entries of a directory were handed out, and which.
    pub open spec fn dirents_read(
        &self,
        was: &Self,
        files: &Files,
        before: Seq<u8>,
        after: Seq<u8>,
        r: Result<usize, Fault>,
    ) -> bool {
        match was.out_entries(files) {
            Err(f) => r == Err::<usize, Fault>(f) && *self == *was && after == before,
            Ok(entries) => {
                let (bytes, next) = packed(
                    entries,
                    was.dir_offset() as nat,
                    before.len() as int,
                );
                &&& r == Ok::<usize, Fault>(bytes.len() as usize)
                &&& after == spliced(before, 0, bytes)
                &&& *self == was.at_offset(next as usize)
            },
        }
    }

    /// Hands out entries of a directory, as many as fit, and moves on behind
    /// them.
    pub fn read_dirents64(&mut self, files: &Files, buf: &mut [u8]) -> (r: Result<usize, Fault>)
        requires
            files.wf(),
        ensures
            final(self).dirents_read(old(self), files, old(buf)@, final(buf)@, r),
    {
        let ghost first = *self;
        match self {
            FileDescriptor::MemDir { entries, offset, .. } => {
                let out = outgoing(entries);
                assert(out_views(out@) =~= first.out_entries(files)->Ok_0);
                let (n, next) = put_records(buf, &out, *offset);
                *offset = next;
                Ok(n)
            },
            FileDescriptor::Ext4Dir { ino, offset, .. } => {
                let list = match files.vol.names.ext4_list_dir_by_ino(*ino) {
                    Ok(list) => list,
                    Err(f) => {
                        return Err(f);
                    },
                };
                let out = outgoing_listed(&list);
                assert(out_views(out@) =~= first.out_entries(files)->Ok_0);
                let (n, next) = put_records(buf, &out, *offset);
                *offset = next;
                Ok(n)
            },
            FileDescriptor::Path { .. } => Err(Fault::Sys(SysErrNo::EBADF)),
            _ => Err(Fault::Sys(SysErrNo::ENOTDIR)),
        }
    }

    /// Whether the flags that can be changed were set as given.
    pub open spec fn flags_set(
        &self,
        was: &Self,
        ch: &Channels,
        ch_was: &Channels,
        flags: usize,
    ) -> bool {
        &&& (({
                let append = (flags & (O_APPEND as usize)) != 0;
                let nonblock = (flags & O_NONBLOCK) != 0;
                match *was {
                    FileDescriptor::MemFile(h) => *self == FileDescriptor::MemFile(
                        MemHandle { append, ..h },
                    ) && *ch == *ch_was,
                    FileDescriptor::Ext4Regular { ino, offset, readable, writable, append: _ } =>
                    *self == (FileDescriptor::Ext4Regular {
                        ino,
                        offset,
                        readable,
                        writable,
                        append,
                    }) && *ch == *ch_was,
                    FileDescriptor::PipeRead { pipe, nonblock: _ } => *self == (
                    FileDescriptor::PipeRead { pipe, nonblock }) && *ch == *ch_was,
                    FileDescriptor::PipeWrite { pipe, nonblock: _ } => *self == (
                    FileDescriptor::PipeWrite { pipe, nonblock }) && *ch == *ch_was,
                    FileDescriptor::Socket { socket } => {
                        &&& *self == *was
                        &&& ch.only_socket(ch_was, socket)
                        &&& ch.wakes == ch_was.wakes
                        &&& ch.sockets@[socket as u128] == (SocketState {
                            nonblock,
                            ..ch_was.sockets@[socket as u128]
                        })
                    },
                    FileDescriptor::EventFd { event } => {
                        &&& *self == *was
                        &&& ch.only_event(ch_was, event)
                        &&& ch.wakes == ch_was.wakes
                        &&& ch.events@[event as u128] == (EventFdState {
                            nonblock,
                            ..ch_was.events@[event as u128]
                        })
                    },
                    _ => *self == *was && *ch == *ch_was,
                }
            }))
    }

    /// Sets whether writes go to the end and whether a pipe or socket waits.
    pub fn set_status_flags(&mut self, ch: &mut Channels, flags: usize)
        requires
            old(ch).wf(),
            old(self).wf(old(ch)),
        ensures
            final(ch).wf(),
            final(self).flags_set(old(self), final(ch), old(ch), flags),
    {
        let append_on = (flags & (O_APPEND as usize)) != 0;
        let nonblock_on = (flags & O_NONBLOCK) != 0;
        match self {
            FileDescriptor::MemFile(h) => {
                h.append = append_on;
            },
            FileDescriptor::Ext4Regular { append, .. } => {
                *append = append_on;
            },
            FileDescriptor::PipeRead { nonblock, .. } => {
                *nonblock = nonblock_on;
            },
            FileDescriptor::PipeWrite { nonblock, .. } => {
                *nonblock = nonblock_on;
            },
            FileDescriptor::Socket { socket } => {
                let ghost was = ch.sockets@;
                match ch.sockets.remove(*socket as u128) {
                    Some(state) => {
                        let mut state = state;
                        state.nonblock = nonblock_on;
                        let ghost now = state;
                        ch.sockets.insert(*socket as u128, state);
                        assert(ch.sockets@ =~= was.insert(*socket as u128, now));
                    },
                    None => {},
                }
            },
            FileDescriptor::EventFd { event } => {
                let ghost was = ch.events@;
                match ch.events.remove(*event as u128) {
                    Some(state) => {
                        let mut state = state;
                        state.nonblock = nonblock_on;
                        ch.events.insert(*event as u128, state);
                        assert(ch.events@ =~= was.insert(*event as u128, state));
                    },
                    None => {},
                }
            },
            _ => {},
        }
    }
}

fn outgoing(entries: &Vec<DirEntryRecord>) -> (out: Vec<OutEntry>)
    ensures
        out@.len() == entries@.len(),
        forall|i: int|
            0 <= i < out@.len() ==> (#[trigger] out@[i])@ == (OutModel {
                ino: (i + 1) as u64,
                name: entries@[i].name@,
                is_dir: entries@[i].is_dir,
            }),
{
    let mut out: Vec<OutEntry> = Vec::new();
    let mut i: usize = 0;
    while i < entries.len()
        invariant
            0 <= i <= entries@.len(),
            out@.len() == i,
            forall|j: int|
                0 <= j < i ==> (#[trigger] out@[j])@ == (OutModel {
                    ino: (j + 1) as u64,
                    name: entries@[j].name@,
                    is_dir: entries@[j].is_dir,
                }),
        decreases entries@.len() - i,
    {
        out.push(
            OutEntry {
                ino: i as u64 + 1,
                name: entries[i].name.clone(),
                is_dir: entries[i].is_dir,
            },
        );
        i = i + 1;
    }
    out
}

fn outgoing_listed(list: &Vec<(u32, String, bool)>) -> (out: Vec<OutEntry>)
    ensures
        out@.len() == list@.len(),
        forall|i: int|
            0 <= i < out@.len() ==> (#[trigger] out@[i])@ == (OutModel {
                ino: list@[i].0 as u64,
                name: list@[i].1@,
                is_dir: list@[i].2,
            }),
{
    let mut out: Vec<OutEntry> = Vec::new();
    let mut i: usize = 0;
    while i < list.len()
        invariant
            0 <= i <= list@.len(),
            out@.len() == i,
            forall|j: int|
                0 <= j < i ==> (#[trigger] out@[j])@ == (OutModel {
                    ino: list@[j].0 as u64,
                    name: list@[j].1@,
                    is_dir: list@[j].2,
                }),
        decreases list@.len() - i,
    {
        out.push(OutEntry { ino: list[i].0 as u64, name: list[i].1.clone(), is_dir: list[i].2 });
        i = i + 1;
    }
    out
}

} // verus!
