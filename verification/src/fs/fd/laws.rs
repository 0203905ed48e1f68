//! What holds of open files as a whole.
use vstd::prelude::*;

use crate::bytes::{le_bytes, le_round_trip, le_value, radix, spliced};
use crate::errno::SysErrNo;
use crate::fs::content::MAX_FILE_OFFSET;
use crate::fs::ext4::access::ReadFault;
use crate::fs::ext4::data::WriteFault;
use crate::fs::ext4::volume::Fault;
use crate::fs::fd::channel::{EventFdState, PipeState, SocketState, SOCK_DGRAM};
use crate::fs::fd::descriptor::{FileDescriptor, Files};
use crate::fs::fd::handle::HandleModel;
use crate::fs::memfs::model::MemFsModel;
use crate::fs::path::normalized;
use crate::task::{Caller, Timestamp};

verus! {

impl FileDescriptor {
    /// Where the next read or write starts, for a file that has an offset.
    pub open spec fn position(&self) -> Option<usize> {
        match *self {
            FileDescriptor::MemFile(h) => Some(h.offset),
            FileDescriptor::Ext4Regular { offset, .. } => Some(offset),
            FileDescriptor::MemDir { offset, .. } => Some(offset),
            FileDescriptor::LoopDevice { offset, .. } => Some(offset),
            _ => None,
        }
    }
}

/// A seek counts from the start, from where the file is, or from its end; it
/// leads there and changes nothing else, and it fails where that is no offset.
pub proof fn a_seek_leads_where_it_says(
    fd: FileDescriptor,
    files: &Files,
    delta: isize,
    whence: usize,
    at: usize,
)
    requires
        fd.seek_spec(files, delta, whence) == Ok::<usize, Fault>(at),
    ensures
        fd.position() is Some,
        whence == 0 ==> at == delta,
        whence == 1 ==> at == fd.position()->0 + delta,
        whence == 2 ==> (match fd {
            FileDescriptor::MemFile(h) => at == h.content@.len() as usize + delta,
            FileDescriptor::Ext4Regular { ino, .. } => files.vol.size_spec(ino) is Ok && at
                == files.vol.size_spec(ino)->Ok_0 + delta,
            FileDescriptor::MemDir { entries, .. } => at == entries@.len() as usize + delta,
            FileDescriptor::LoopDevice { index, .. } => files.blocks.loop_size_spec(
                &files.mem,
                &files.vol,
                index,
            ) is Ok && at == files.blocks.loop_size_spec(
                &files.mem,
                &files.vol,
                index,
            )->Ok_0 + delta,
            _ => false,
        }),
        whence <= 2,
        at <= MAX_FILE_OFFSET,
        fd.at_offset(at).position() == Some(at),
        fd.at_offset(at).at_offset(fd.position()->0) == fd,
{
}

/// Asking where a file is leaves it there, and seeks from where it is add up.
pub proof fn relative_seeks_add_up(fd: FileDescriptor, files: &Files, a: isize, b: isize, x: usize, y: usize)
    requires
        fd.seek_spec(files, a, 1) == Ok::<usize, Fault>(x),
        fd.at_offset(x).seek_spec(files, b, 1) == Ok::<usize, Fault>(y),
    ensures
        y == fd.position()->0 + a + b,
        a == 0 ==> x == fd.position()->0 && fd.at_offset(x) == fd,
{
}

/// Where a seek is to nowhere, it fails; everywhere else it succeeds.
pub proof fn a_seek_fails_only_outside(
    h: crate::fs::fd::handle::MemHandle,
    files: &Files,
    delta: isize,
    whence: usize,
)
    requires
        h.wf(),
        h.offset <= MAX_FILE_OFFSET,
    ensures
        ({
            let r = FileDescriptor::MemFile(h).seek_spec(files, delta, whence);
            let base = if whence == 0 {
                0
            } else if whence == 1 {
                h.offset as int
            } else {
                h.content@.len() as usize as int
            };
            r is Ok <==> whence <= 2 && 0 <= base + delta <= MAX_FILE_OFFSET
        }),
{
}

/// Reading on is reading at the offset, and then the offset is behind what was
/// read; the bytes in the buffer behind that stay.
pub proof fn reading_on_reads_at_the_offset(
    fd: FileDescriptor,
    next: FileDescriptor,
    files: &Files,
    was: &Files,
    input: Option<u8>,
    before: Seq<u8>,
    after: Seq<u8>,
    disk: Seq<u8>,
    n: usize,
)
    requires
        next.read_done(&fd, files, was, input, before, after, disk, Ok::<usize, ReadFault>(n)),
        fd is MemFile || fd is Ext4Regular || fd is LoopDevice,
        fd.position()->0 + n <= usize::MAX,
    ensures
        next.position() == Some((fd.position()->0 + n) as usize),
        next.at_offset(fd.position()->0).read_at_done(
            &fd,
            files,
            was,
            fd.position()->0,
            before,
            after,
            disk,
            Ok::<usize, ReadFault>(n),
        ),
{
    match fd {
        FileDescriptor::MemFile(h) => {
            let g = next->MemFile_0;
            assert(g@.offset == h@.offset + n);
            let back = next.at_offset(h.offset)->MemFile_0;
            assert(back@ =~= h@.read_at_spec(was.mem@, h@.offset, before).0);
        },
        _ => {},
    }
}

/// A file of memory gives its bytes from the offset on, as many as there are and
/// fit, and leaves the rest of the buffer.
pub proof fn memory_reads_give_the_contents(
    h: HandleModel,
    mem: MemFsModel,
    offset: nat,
    buf: Seq<u8>,
)
    requires
        h.readable,
        !h.is_device(),
        buf.len() <= usize::MAX,
    ensures
        ({
            let (now, r, after) = h.read_at_spec(mem, offset, buf);
            let held = if h.linked && mem.file_index(normalized(h.name)) is Some {
                mem.backing_of(normalized(h.name)).content
            } else {
                h.content
            };
            &&& r is Ok
            &&& r->Ok_0 <= buf.len()
            &&& offset >= held.len() ==> r->Ok_0 == 0
            &&& offset < held.len() ==> r->Ok_0 == buf.len() || offset + r->Ok_0 == held.len()
            &&& after.len() == buf.len()
            &&& forall|i: int| 0 <= i < r->Ok_0 ==> #[trigger] after[i] == held[offset + i]
            &&& forall|i: int| r->Ok_0 <= i < buf.len() ==> #[trigger] after[i] == buf[i]
        }),
{
}

/// Without leave nothing is read, written or cut, and nothing changes.
pub proof fn no_leave_no_data(
    fd: FileDescriptor,
    next: FileDescriptor,
    files: &Files,
    was: &Files,
    caller: &Caller,
    writer: usize,
    before: Seq<u8>,
    after: Seq<u8>,
    disk: Seq<u8>,
    now: u32,
    r: Result<usize, ReadFault>,
    w: Result<usize, WriteFault>,
)
    ensures
        (match fd {
            FileDescriptor::MemFile(h) => !h.readable,
            FileDescriptor::Ext4Regular { readable, .. } => !readable,
            FileDescriptor::LoopDevice { readable, .. } => !readable,
            FileDescriptor::PipeWrite { .. } | FileDescriptor::Stdout | FileDescriptor::Stderr
            | FileDescriptor::Path { .. } => true,
            _ => false,
        }) && next.read_done(&fd, files, was, None, before, after, disk, r) ==> r == Err::<
            usize,
            ReadFault,
        >(ReadFault::Sys(SysErrNo::EBADF)) && *files == *was && after == before,
        (match fd {
            FileDescriptor::MemFile(h) => !h.writable,
            FileDescriptor::Ext4Regular { writable, .. } => !writable,
            FileDescriptor::LoopDevice { writable, .. } => !writable,
            FileDescriptor::PipeRead { .. } | FileDescriptor::Stdin | FileDescriptor::Path { .. } => true,
            _ => false,
        }) && next.write_done(&fd, files, was, caller, writer, before, disk, now, w) ==> w == Err::<
            usize,
            WriteFault,
        >(WriteFault::Sys(SysErrNo::EBADF)) && files.mem@ == was.mem@ && files.vol == was.vol
            && files.channels == was.channels,
        !fd.can_read() && next.read_done(&fd, files, was, None, before, after, disk, r) ==> r is Err,
        !fd.can_write() && next.write_done(&fd, files, was, caller, writer, before, disk, now, w)
            ==> w is Err,
{
}

/// What is appended lies behind all that was there, and the offset is behind it
/// then. Nothing that was there changes.
pub proof fn appended_bytes_come_last(h: HandleModel, mem: MemFsModel, now: Timestamp, data: Seq<u8>)
    requires
        h.writable,
        h.append,
        !h.is_device(),
        data.len() > 0,
        h.refreshed(mem).content.len() + data.len() <= MAX_FILE_OFFSET,
    ensures
        ({
            let (after, stored, r) = h.write_spec(mem, now, data);
            let old = h.size_spec(mem);
            &&& r == Ok::<usize, SysErrNo>(data.len() as usize)
            &&& after.content.len() == old + data.len()
            &&& after.content.skip(old as int) == data
            &&& after.content.take(old as int) == h.refreshed(mem).content
            &&& after.offset == after.content.len()
            &&& after.times.mtime_sec == now.sec && after.times.ctime_sec == now.sec
        }),
{
    let (after, stored, r) = h.write_spec(mem, now, data);
    let c = h.refreshed(mem).content;
    assert(after.content =~= c + data);
    assert(after.content.skip(c.len() as int) =~= data);
    assert(after.content.take(c.len() as int) =~= c);
}

/// What is written lands at the offset; what lies before it stays, with zeros in
/// a gap, and the offset is behind it then.
pub proof fn written_bytes_land_at_the_offset(
    h: HandleModel,
    mem: MemFsModel,
    now: Timestamp,
    data: Seq<u8>,
)
    requires
        h.writable,
        !h.append,
        !h.is_device(),
        data.len() > 0,
        h.offset + data.len() <= MAX_FILE_OFFSET,
    ensures
        ({
            let (after, stored, r) = h.write_spec(mem, now, data);
            let old = h.refreshed(mem).content;
            &&& r == Ok::<usize, SysErrNo>(data.len() as usize)
            &&& after.offset == h.offset + data.len()
            &&& after.content.len() >= after.offset
            &&& forall|i: int|
                0 <= i < data.len() ==> #[trigger] after.content[h.offset + i] == data[i]
            &&& forall|i: int|
                0 <= i < h.offset ==> #[trigger] after.content[i] == (if i < old.len() {
                    old[i]
                } else {
                    0
                })
        }),
{
}

/// Appending to a file of the volume starts where it ends.
pub proof fn volume_appends_at_the_end(
    next: FileDescriptor,
    files: &Files,
    was: &Files,
    caller: &Caller,
    writer: usize,
    ino: u32,
    offset: usize,
    readable: bool,
    append: bool,
    data: Seq<u8>,
    disk: Seq<u8>,
    now: u32,
    n: usize,
    size: usize,
)
    requires
        was.vol.size_spec(ino) == Ok::<usize, Fault>(size),
        next.write_done(
            &(FileDescriptor::Ext4Regular { ino, offset, readable, writable: true, append }),
            files,
            was,
            caller,
            writer,
            data,
            disk,
            now,
            Ok::<usize, WriteFault>(n),
        ),
        (if append { size } else { offset }) + n <= usize::MAX,
    ensures
        files.vol.wrote_at(
            &was.vol,
            ino,
            if append {
                size
            } else {
                offset
            },
            data,
            disk,
            now,
            Ok::<usize, WriteFault>(n),
        ),
        next.position() == Some(((if append { size } else { offset }) + n) as usize),
        files.mem == was.mem,
{
}

/// A file of memory whose length was set has that length, wherever it is asked
/// for; what it held in front of it stays, and what is new is zeros.
pub proof fn set_length_is_the_length(
    h: HandleModel,
    mem: MemFsModel,
    now: Timestamp,
    len: nat,
    readonly: SysErrNo,
)
    requires
        !h.is_device(),
        h.linked ==> mem.file_index(normalized(h.name)) is Some,
        h.linked ==> 0 <= mem.files[mem.file_index(normalized(h.name))->0].backing
            < mem.backings.len(),
    ensures
        ({
            let (after, stored, r) = h.truncate_spec(mem, now, len, readonly);
            let old = h.refreshed(mem).content;
            &&& r is Ok <==> h.writable
            &&& !h.writable ==> r == Err::<(), SysErrNo>(readonly) && after == h && stored == mem
            &&& h.writable ==> after.size_spec(stored) == len && after.content.len() == len
                && after.offset == h.offset
            &&& h.writable ==> forall|i: int|
                0 <= i < len ==> #[trigger] after.content[i] == (if i < old.len() {
                    old[i]
                } else {
                    0
                })
        }),
{
    let (after, stored, r) = h.truncate_spec(mem, now, len, readonly);
    if h.writable && h.linked {
        let n = normalized(h.name);
        assert(stored.files =~= mem.files);
        assert(stored.file_index(n) == mem.file_index(n)) by {
            assert forall|i: int| stored.first_file(n, i) == mem.first_file(n, i) by {}
        }
    }
}

/// A pipe gives the bytes in the order in which they came, loses none and makes
/// none up; it takes as many as it has room for and gives as many as it has.
pub proof fn a_pipe_is_first_in_first_out(
    was: PipeState,
    mid: PipeState,
    after: PipeState,
    data: Seq<u8>,
    n: usize,
    woken: bool,
    before: Seq<u8>,
    got: Seq<u8>,
    m: usize,
    also_woken: bool,
)
    requires
        was.wf(),
        data.len() <= usize::MAX,
        before.len() <= usize::MAX,
        mid.was_written(&was, data, (Ok::<usize, SysErrNo>(n), woken)),
        after.was_read(&mid, before, got, (Ok::<usize, SysErrNo>(m), also_woken)),
    ensures
        n <= data.len() && m <= before.len(),
        was.buf@ + data.take(n as int) == got.take(m as int) + after.buf@,
        got.skip(m as int) == before.skip(m as int),
        n < data.len() ==> mid.buf@.len() == 65536,
        data.len() > 0 ==> n > 0 && was.readers > 0,
        m < before.len() ==> after.buf@.len() == 0,
        m == 0 && before.len() > 0 ==> was.writers == 0,
        n > 0 && was.buf@.len() == 0 ==> woken,
        m > 0 && mid.buf@.len() == 65536 ==> also_woken,
{
    let all = mid.buf@;
    assert(all == was.buf@ + data.take(n as int));
    assert(got.take(m as int) =~= all.take(m as int));
    assert(all.take(m as int) + all.skip(m as int) =~= all);
    assert(got.skip(m as int) =~= before.skip(m as int));
}

/// A pipe that nobody reads takes nothing, and one that is empty but still has a
/// writer gives nothing yet.
pub proof fn a_pipe_waits_or_breaks(
    was: PipeState,
    after: PipeState,
    data: Seq<u8>,
    got: Seq<u8>,
    w: (Result<usize, SysErrNo>, bool),
)
    requires
        was.wf(),
        data.len() > 0,
        data.len() <= usize::MAX,
    ensures
        after.was_written(&was, data, w) ==> (w.0 == Err::<usize, SysErrNo>(SysErrNo::EPIPE)
            <==> was.readers == 0),
        after.was_written(&was, data, w) ==> (w.0 == Err::<usize, SysErrNo>(SysErrNo::EAGAIN)
            <==> was.readers > 0 && was.buf@.len() == 65536),
        after.was_read(&was, data, got, w) ==> (w.0 == Err::<usize, SysErrNo>(SysErrNo::EAGAIN)
            <==> was.writers > 0 && was.buf@.len() == 0),
        after.was_written(&was, data, w) && w.0 is Err ==> after.buf@ == was.buf@,
        after.was_read(&was, data, got, w) && w.0 is Err ==> after.buf@ == was.buf@ && got == data,
{
    assert(was.buf@ + data.take(0) =~= was.buf@);
    assert(was.buf@.skip(0) =~= was.buf@);
    assert(spliced(data, 0, was.buf@.take(0)) =~= data);
}

/// What is written to a counter is added to it, and a read gives it back: all of
/// it, or one where it counts as a semaphore. Nothing is lost.
pub proof fn a_counter_gives_what_it_got(
    was: EventFdState,
    mid: EventFdState,
    after: EventFdState,
    value: u64,
    woken: bool,
    before: Seq<u8>,
    got: Seq<u8>,
    also_woken: bool,
)
    requires
        before.len() >= 8,
        mid.was_written(&was, le_bytes(value as nat, 8), (Ok::<usize, SysErrNo>(8), woken)),
        after.was_read(&mid, before, got, (Ok::<usize, SysErrNo>(8), also_woken)),
    ensures
        mid.counter == was.counter + value,
        le_value(got.take(8)) + after.counter == was.counter + value,
        le_value(got.take(8)) == (if was.semaphore {
            1
        } else {
            was.counter + value
        }),
        got.skip(8) == before.skip(8),
        woken <==> was.counter == 0 && value > 0,
        also_woken,
{
    le_round_trip(value as nat, 8);
    let b = le_bytes(value as nat, 8);
    assert(b.take(8) =~= b);
    assert(radix(8) > u64::MAX) by {
        reveal_with_fuel(radix, 9);
    }
    assert(le_value(b) == value);
    let t = le_bytes(mid.taken() as nat, 8);
    le_round_trip(mid.taken() as nat, 8);
    assert(got.take(8) =~= t);
    assert(got.skip(8) =~= before.skip(8));
}

/// A stream gives the bytes in the order in which they came; a packet comes out
/// whole or is cut to the buffer, one at a time, in order.
pub proof fn a_socket_keeps_the_order(
    was: SocketState,
    after: SocketState,
    before: Seq<u8>,
    got: Seq<u8>,
    n: usize,
)
    requires
        after.was_read(&was, before, got, Ok::<usize, SysErrNo>(n)),
        before.len() > 0,
        before.len() <= usize::MAX,
        !was.shutdown_read,
    ensures
        n <= before.len(),
        got.skip(n as int) == before.skip(n as int),
        was.sock_type != SOCK_DGRAM ==> was.rx_buf@ == got.take(n as int) + after.rx_buf@ && n > 0
            && (n < before.len() ==> after.rx_buf@.len() == 0),
        was.sock_type == SOCK_DGRAM ==> was.dgram_queue@.len() > 0 && got.take(n as int)
            == was.dgram_queue@[0].data@.take(n as int) && (n == before.len() || n
            == was.dgram_queue@[0].data@.len()) && after.dgram_queue@ == was.dgram_queue@.drop_first(),
{
    assert(got.skip(n as int) =~= before.skip(n as int));
    if was.sock_type != SOCK_DGRAM {
        let all = was.rx_buf@;
        assert(got.take(n as int) =~= all.take(n as int));
        assert(all.take(n as int) + all.skip(n as int) =~= all);
    } else {
        assert(got.take(n as int) =~= was.dgram_queue@[0].data@.take(n as int));
        assert(was.dgram_queue@.skip(1) =~= was.dgram_queue@.drop_first());
    }
}

} // verus!
