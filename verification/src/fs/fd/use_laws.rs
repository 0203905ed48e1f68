//! When descriptors are ready, and what changes of them.
use vstd::prelude::*;

use crate::errno::SysErrNo;
use crate::fs::content::MAX_FILE_OFFSET;
use crate::fs::ext4::data::{TruncateWork, WriteFault};
use crate::fs::ext4::volume::{Fault, Load};
use crate::fs::fd::descriptor::{Channels, FileDescriptor, Files, Wake};
use crate::fs::fd::dirents::OutModel;
use crate::fs::fd::handle::{names_null, HandleModel};
use crate::fs::fd::table::{marked, FileDescriptorTable};
use crate::fs::memfs::model::MemFsModel;
use crate::task::{Caller, Timestamp};

verus! {

/// A pipe that is ready to be read does not make its reader wait, and one that is
/// not does; so it is with writing, unless nobody reads.
pub proof fn a_ready_pipe_does_not_wait(
    was: &Channels,
    after: &Channels,
    id: u64,
    nonblock: bool,
    before: Seq<u8>,
    got: Seq<u8>,
    data: Seq<u8>,
    r: Result<usize, SysErrNo>,
)
    requires
        before.len() > 0,
        data.len() > 0,
        was.pipes@[id as u128].buf@.len() <= 65536,
    ensures
        after.pipe_read_done(was, id, before, got, r) ==> {
            let ready = (FileDescriptor::PipeRead { pipe: id, nonblock }).read_ready(was);
            &&& ready <==> r is Ok
            &&& !ready <==> r == Err::<usize, SysErrNo>(SysErrNo::EAGAIN)
        },
        after.pipe_write_done(was, id, data, r) ==> {
            let ready = (FileDescriptor::PipeWrite { pipe: id, nonblock }).write_ready(was);
            &&& ready <==> r is Ok
            &&& !ready && was.pipes@[id as u128].readers > 0 <==> r == Err::<usize, SysErrNo>(
                SysErrNo::EAGAIN,
            )
            &&& was.pipes@[id as u128].readers == 0 <==> r == Err::<usize, SysErrNo>(
                SysErrNo::EPIPE,
            )
        },
        !(FileDescriptor::PipeRead { pipe: id, nonblock }).write_ready(was),
        !(FileDescriptor::PipeWrite { pipe: id, nonblock }).read_ready(was),
{
}

/// A counter that is ready to be read does not make its reader wait, and one that
/// is not does; one that is ready takes at least a one.
pub proof fn a_ready_counter_does_not_wait(
    was: &Channels,
    after: &Channels,
    id: u64,
    before: Seq<u8>,
    got: Seq<u8>,
    r: Result<usize, SysErrNo>,
)
    requires
        before.len() >= 8,
        after.event_read_done(was, id, before, got, r),
    ensures
        (FileDescriptor::EventFd { event: id }).read_ready(was) <==> r is Ok,
        r is Ok && was.events@[id as u128].counter < u64::MAX ==> (FileDescriptor::EventFd {
            event: id,
        }).write_ready(after),
        r is Err ==> after.events@[id as u128] == was.events@[id as u128],
        (FileDescriptor::EventFd { event: id }).event_spec(was) == Some(was.events@[id as u128]),
{
}

/// Those who wait for room in a pipe are woken when a full one is read, those who
/// wait for bytes when an empty one is written.
pub proof fn waiting_ends_are_woken(
    was: &Channels,
    after: &Channels,
    id: u64,
    before: Seq<u8>,
    got: Seq<u8>,
    data: Seq<u8>,
    n: usize,
)
    requires
        n > 0,
    ensures
        after.pipe_read_done(was, id, before, got, Ok::<usize, SysErrNo>(n))
            && was.pipes@[id as u128].buf@.len() == 65536 ==> after.wakes@ == was.wakes@.push(
            Wake::PipeWriters(id),
        ),
        after.pipe_write_done(was, id, data, Ok::<usize, SysErrNo>(n))
            && was.pipes@[id as u128].buf@.len() == 0 ==> after.wakes@ == was.wakes@.push(
            Wake::PipeReaders(id),
        ),
{
}

/// A write at a place of its own leaves the position of the descriptor, goes
/// nowhere without leave, and puts the bytes at that place.
pub proof fn a_placed_write_keeps_the_position(
    was: &FileDescriptor,
    after: &FileDescriptor,
    files: &Files,
    files_was: &Files,
    caller: &Caller,
    at: usize,
    data: Seq<u8>,
    disk: Seq<u8>,
    now: u32,
    r: Result<usize, WriteFault>,
)
    requires
        after.write_at_done(was, files, files_was, caller, at, data, disk, now, r),
    ensures
        after.position() == was.position(),
        !was.can_write() ==> r is Err && files.mem@ == files_was.mem@ && files.vol
            == files_was.vol,
        match (*was, *after) {
            (FileDescriptor::MemFile(h), FileDescriptor::MemFile(g)) => {
                &&& g@.offset == h@.offset && g@.append == h@.append && g@.writable == h@.writable
                &&& !h@.is_device() && r is Ok && data.len() > 0 ==> {
                    &&& r == Ok::<usize, WriteFault>(data.len() as usize)
                    &&& g@.content.len() >= at + data.len()
                    &&& forall|i: int|
                        0 <= i < data.len() ==> #[trigger] g@.content[at + i] == data[i]
                }
            },
            (FileDescriptor::MemFile(_), _) => false,
            _ => *after == *was,
        },
        files.channels == files_was.channels,
{
}

/// A write to a file of the volume that is opened for appending goes to its end,
/// any other and all reads to the position.
pub proof fn appending_goes_to_the_end(
    ino: u32,
    offset: usize,
    readable: bool,
    writable: bool,
    append: bool,
    files: &Files,
    size: usize,
)
    requires
        files.vol.size_spec(ino) == Ok::<usize, Fault>(size),
    ensures
        ({
            let fd = FileDescriptor::Ext4Regular { ino, offset, readable, writable, append };
            &&& fd.next_on_volume(files, false) == Some((ino, offset))
            &&& fd.next_on_volume(files, true) == Some(
                (
                    ino,
                    if append {
                        size
                    } else {
                        offset
                    },
                ),
            )
        }),
{
}

/// Room that is made in a file makes it long enough for the range and never
/// shorter; its length stays if that is asked for. Nothing is made of an empty
/// range.
pub proof fn made_room_is_there(
    was: &FileDescriptor,
    after: &FileDescriptor,
    files: &Files,
    files_was: &Files,
    caller: &Caller,
    offset: usize,
    len: usize,
    keep_size: bool,
    now: u32,
    r: Result<TruncateWork, Fault>,
    size: usize,
)
    requires
        after.space_allocated(was, files, files_was, caller, offset, len, keep_size, now, r),
        was.size_spec(files_was) == Ok::<usize, Load>(size),
    ensures
        len == 0 ==> r == Err::<TruncateWork, Fault>(Fault::Sys(SysErrNo::EINVAL)),
        len > 0 && offset + len > MAX_FILE_OFFSET ==> r == Err::<TruncateWork, Fault>(
            Fault::Sys(SysErrNo::EFBIG),
        ),
        r is Ok ==> *was is MemFile || *was is Ext4Regular,
        match (*was, *after) {
            (FileDescriptor::MemFile(h), FileDescriptor::MemFile(g)) => r is Ok
                && !h@.is_device() ==> {
                &&& keep_size ==> g@.content.len() == size
                &&& !keep_size ==> g@.content.len() >= offset + len && g@.content.len() >= size
                &&& !keep_size ==> g@.content.len() == size || g@.content.len() == offset + len
                &&& g@.offset == h@.offset
            },
            (FileDescriptor::Ext4Regular { ino, .. }, _) => *after == *was && (r is Ok
                && files_was.vol.files().regular.contains_key(ino as u128)
                && files_was.vol.names.inodes@[ino as u128].mode & 0o170000 == 0o100000 ==> {
                let end = files.vol.files().regular[ino as u128].size;
                &&& keep_size ==> end == size
                &&& !keep_size ==> end >= offset + len && end >= size && (end == size || end
                    == offset + len)
            }),
            _ => true,
        },
{
}

/// Flags that are set change nothing but themselves: what the descriptor stands
/// for, its position and what may be done with it stay.
pub proof fn flags_change_nothing_else(
    was: &FileDescriptor,
    after: &FileDescriptor,
    ch: &Channels,
    ch_was: &Channels,
    flags: usize,
)
    requires
        after.flags_set(was, ch, ch_was, flags),
    ensures
        after.position() == was.position(),
        after.can_read() == was.can_read(),
        after.can_write() == was.can_write(),
        match (*was, *after) {
            (FileDescriptor::MemFile(h), FileDescriptor::MemFile(g)) => (g.append <==> flags
                & 0o2000 != 0) && g.name == h.name && g.content == h.content,
            (
                FileDescriptor::Ext4Regular { ino: a, .. },
                FileDescriptor::Ext4Regular { ino: b, append, .. },
            ) => a == b && (append <==> flags & 0o2000 != 0),
            (
                FileDescriptor::PipeRead { pipe: a, .. },
                FileDescriptor::PipeRead { pipe: b, nonblock },
            ) => a == b && (nonblock <==> flags & 0o4000 != 0),
            (
                FileDescriptor::PipeWrite { pipe: a, .. },
                FileDescriptor::PipeWrite { pipe: b, nonblock },
            ) => a == b && (nonblock <==> flags & 0o4000 != 0),
            (FileDescriptor::EventFd { event: a }, FileDescriptor::EventFd { event: b }) => a == b
                && (ch.events@[a as u128].nonblock <==> flags & 0o4000 != 0)
                && ch.events@[a as u128].counter == ch_was.events@[a as u128].counter,
            _ => *after == *was,
        },
        ch.pipes == ch_was.pipes,
        ch.wakes == ch_was.wakes,
{
}

/// A number that was given back stands for nothing, and all others stand for what
/// they did.
pub proof fn a_freed_number_is_free(
    was: &FileDescriptorTable,
    after: &FileDescriptorTable,
    index: int,
    other: int,
)
    requires
        after.emptied(was, index),
        0 <= index < was.fds@.len(),
        0 <= index < was.flags@.len(),
        0 <= other < was.fds@.len(),
        0 <= other < was.flags@.len(),
        other != index,
    ensures
        after.fds@[index] is None,
        after.flags@[index] == 0,
        after.fds@[other] == was.fds@[other],
        after.flags@[other] == was.flags@[other],
        after.fds@.len() == was.fds@.len(),
{
}

/// The files that are closed when another program is run are those whose numbers
/// are marked for it, in the order of their numbers.
pub proof fn marked_files_are_closed(
    fds: Seq<Option<FileDescriptor>>,
    flags: Seq<usize>,
    n: nat,
    file: FileDescriptor,
)
    requires
        n <= fds.len(),
        n <= flags.len(),
    ensures
        marked(fds, flags, n).contains(file) <==> exists|i: int|
            0 <= i < n && #[trigger] fds[i] == Some(file) && flags[i] == 1,
        marked(fds, flags, n).len() <= n,
    decreases n,
{
    if n > 0 {
        marked_files_are_closed(fds, flags, (n - 1) as nat, file);
        let before = marked(fds, flags, (n - 1) as nat);
        let all = marked(fds, flags, n);
        if before.contains(file) {
            let k = choose|k: int| 0 <= k < before.len() && before[k] == file;
            assert(all[k] == file);
        }
        if fds[n - 1] == Some(file) && flags[n - 1] == 1 {
            assert(all[all.len() - 1] == file);
        }
        if all.contains(file) {
            let k = choose|k: int| 0 <= k < all.len() && all[k] == file;
            if k < before.len() {
                assert(before[k] == file);
                let i = choose|i: int|
                    0 <= i < n - 1 && #[trigger] fds[i] == Some(file) && flags[i] == 1;
                assert(fds[i] == Some(file));
            } else {
                assert(fds[n - 1] == Some(file));
            }
        }
    }
}

/// The entries that an open directory hands out are those it was opened with, or
/// those that the volume lists now, one for one and with their numbers.
pub proof fn open_directories_hand_out_what_they_list(
    fd: &FileDescriptor,
    after: &FileDescriptor,
    files: &Files,
    before: Seq<u8>,
    got: Seq<u8>,
    r: Result<usize, Fault>,
    out: Seq<OutModel>,
)
    requires
        after.dirents_read(fd, files, before, got, r),
        fd.out_entries(files) == Ok::<Seq<OutModel>, Fault>(out),
    ensures
        r is Ok,
        match *fd {
            FileDescriptor::MemDir { entries, .. } => out.len() == entries@.len() && forall|i: int|
                0 <= i < out.len() ==> (#[trigger] out[i]).name == entries@[i].name@
                    && out[i].is_dir == entries@[i].is_dir && out[i].ino == (i + 1) as u64,
            FileDescriptor::Ext4Dir { ino, .. } => files.vol.names.dirs@.contains_key(ino as u128),
            _ => false,
        },
        fd.out_entries(files) is Ok ==> *fd is MemDir || *fd is Ext4Dir,
{
}

/// Only directories hand out entries, and a refusal changes nothing.
pub proof fn only_directories_hand_out_entries(
    fd: &FileDescriptor,
    after: &FileDescriptor,
    files: &Files,
    before: Seq<u8>,
    got: Seq<u8>,
    r: Result<usize, Fault>,
)
    requires
        after.dirents_read(fd, files, before, got, r),
    ensures
        r is Ok ==> *fd is MemDir || *fd is Ext4Dir,
        !(*fd is MemDir || *fd is Ext4Dir || *fd is Path) ==> r == Err::<usize, Fault>(
            Fault::Sys(SysErrNo::ENOTDIR),
        ),
        r is Err ==> *after == *fd && got == before,
{
}

/// The empty device reads as nothing and the zero device as zeros; both take all
/// that is written and keep none of it.
pub proof fn devices_keep_nothing(
    h: HandleModel,
    mem: MemFsModel,
    now: Timestamp,
    buf: Seq<u8>,
    data: Seq<u8>,
    offset: nat,
)
    requires
        h.is_device(),
        h.readable,
        h.writable,
    ensures
        names_null(h.name) ==> h.read_at_spec(mem, offset, buf) == (
            h,
            Ok::<usize, SysErrNo>(0),
            buf,
        ),
        !names_null(h.name) ==> ({
            let (after, r, got) = h.read_at_spec(mem, offset, buf);
            &&& after == h
            &&& r == Ok::<usize, SysErrNo>(buf.len() as usize)
            &&& got.len() == buf.len()
            &&& forall|i: int| 0 <= i < buf.len() ==> #[trigger] got[i] == 0
        }),
        h.write_at_spec(mem, now, offset, data) == (
            h,
            mem,
            Ok::<usize, SysErrNo>(data.len() as usize),
        ),
        h.size_spec(mem) == 0,
{
}

} // verus!
