//! What holds of the numbers of open files, and of the records of directories.
use vstd::prelude::*;
use vstd::utf8::encode_utf8;

use crate::bytes::{le_round_trip, le_value, radix};
use crate::errno::SysErrNo;
use crate::fs::fd::descriptor::{FileDescriptor, Files};
use crate::fs::fd::dirents::{packed, record_bytes, record_len, OutModel};
use crate::fs::fd::lifecycle::alike;
use crate::fs::fd::table::FileDescriptorTable;

verus! {

/// A file gets the lowest number that is free from the start on; all other
/// numbers stand for what they stood for. Where none is free it is closed.
pub proof fn the_lowest_number_is_given(
    was: &FileDescriptorTable,
    after: &FileDescriptorTable,
    files: &Files,
    files_was: &Files,
    start: usize,
    limit: usize,
    fd: FileDescriptor,
    flags: usize,
    r: Option<usize>,
)
    requires
        was.wf(),
        after.allocated(was, files, files_was, start, limit, fd, flags, r),
    ensures
        match r {
            Some(i) => {
                &&& start <= i < limit && i < 1024
                &&& was.fds@[i as int] is None
                &&& forall|j: int| start <= j < i ==> (#[trigger] was.fds@[j]) is Some
                &&& after.fds@[i as int] == Some(fd)
                &&& forall|j: int|
                    0 <= j < 1024 && j != i ==> #[trigger] after.fds@[j] == was.fds@[j]
                &&& forall|j: int|
                    0 <= j < 1024 && j != i ==> #[trigger] after.flags@[j] == was.flags@[j]
                &&& after.flags@[i as int] == 1 <==> flags & 1 != 0
                &&& *files == *files_was
            },
            None => {
                &&& forall|j: int| start <= j < limit && j < 1024 ==> (#[trigger] was.fds@[j]) is Some
                &&& *after == *was
                &&& fd.closed(files, files_was)
            },
        },
{
    assert(flags & 1usize == 0 || flags & 1usize == 1) by (bit_vector);
}

/// A copy of a number is the lowest free one and stands for the same file, and
/// the number itself still does.
pub proof fn a_copy_stands_for_the_same_file(
    was: &FileDescriptorTable,
    after: &FileDescriptorTable,
    files: &Files,
    files_was: &Files,
    old_fd: usize,
    limit: usize,
    n: usize,
)
    requires
        was.wf(),
        after.duplicated(was, files, files_was, old_fd, limit, Ok::<usize, SysErrNo>(n)),
    ensures
        old_fd < 1024 && was.fds@[old_fd as int] is Some,
        n != old_fd && n < limit && n < 1024,
        was.fds@[n as int] is None,
        forall|j: int| 0 <= j < n ==> (#[trigger] was.fds@[j]) is Some,
        after.fds@[n as int] is Some,
        alike(after.fds@[n as int]->0, was.fds@[old_fd as int]->0),
        after.fds@[old_fd as int] == was.fds@[old_fd as int],
        after.flags@[n as int] == 0,
        forall|j: int| 0 <= j < 1024 && j != n ==> #[trigger] after.fds@[j] == was.fds@[j],
{
    assert(0usize & 1usize == 0) by (bit_vector);
}

/// A number that is made to stand for the file of another does so; what it stood
/// for before is closed, and all other numbers stay.
pub proof fn a_number_can_be_taken_over(
    was: &FileDescriptorTable,
    after: &FileDescriptorTable,
    files: &Files,
    files_was: &Files,
    old_fd: usize,
    new_fd: usize,
    limit: usize,
    r: Result<usize, SysErrNo>,
)
    requires
        was.wf(),
        after.replaced(was, files, files_was, old_fd, new_fd, limit, r),
    ensures
        r is Ok <==> old_fd < 1024 && was.fds@[old_fd as int] is Some && new_fd < limit && new_fd
            < 1024,
        r is Err ==> r == Err::<usize, SysErrNo>(SysErrNo::EBADF) && *after == *was && *files
            == *files_was,
        r is Ok ==> r->Ok_0 == new_fd && after.fds@[new_fd as int] is Some && alike(
            after.fds@[new_fd as int]->0,
            was.fds@[old_fd as int]->0,
        ),
        r is Ok && old_fd == new_fd ==> *after == *was && *files == *files_was,
        r is Ok && old_fd != new_fd ==> after.flags@[new_fd as int] == 0,
        forall|j: int| 0 <= j < 1024 && j != new_fd ==> #[trigger] after.fds@[j] == was.fds@[j],
{
    assert(0usize & 1usize == 0) by (bit_vector);
}

/// A copied file is open once more and a closed one once less: of a file of the
/// volume and of the ends of a pipe that is counted, and nothing else is.
pub proof fn copies_and_closings_are_counted(
    fd: FileDescriptor,
    was: &Files,
    copied: &Files,
    closed: &Files,
    ino: u32,
    pipe: u64,
)
    requires
        fd.copied(copied, was),
        fd.closed(closed, was),
        was.vol.files().counts_are_real(),
        was.vol.files().refs(ino) < usize::MAX,
        fd.can_copy(was),
    ensures
        fd is Ext4Regular && fd->Ext4Regular_ino == ino ==> copied.vol.files().refs(ino)
            == was.vol.files().refs(ino) + 1,
        fd is Ext4Regular && fd->Ext4Regular_ino == ino && was.vol.files().refs(ino) > 0
            ==> closed.vol.files().refs(ino) == was.vol.files().refs(ino) - 1,
        !(fd is Ext4Regular) ==> copied.vol == was.vol && closed.vol == was.vol && closed.doomed
            == was.doomed,
        fd is PipeRead && fd->PipeRead_pipe == pipe ==> {
            let p = was.channels.pipes@[pipe as u128];
            &&& copied.channels.pipes@[pipe as u128].readers == p.readers + 1
            &&& copied.channels.pipes@[pipe as u128].writers == p.writers
            &&& p.readers > 0 ==> closed.channels.pipes@[pipe as u128].readers == p.readers - 1
            &&& closed.channels.pipes@[pipe as u128].writers == p.writers
        },
        fd is PipeWrite && fd->PipeWrite_pipe == pipe ==> {
            let p = was.channels.pipes@[pipe as u128];
            &&& copied.channels.pipes@[pipe as u128].writers == p.writers + 1
            &&& copied.channels.pipes@[pipe as u128].readers == p.readers
            &&& p.writers > 0 ==> closed.channels.pipes@[pipe as u128].writers == p.writers - 1
            &&& closed.channels.pipes@[pipe as u128].readers == p.readers
        },
        !(fd is PipeRead) && !(fd is PipeWrite) ==> copied.channels.pipes == was.channels.pipes
            && closed.channels.pipes == was.channels.pipes,
        copied.mem == was.mem && closed.mem == was.mem,
{
}

/// The records of some entries, one after the other.
pub open spec fn records(entries: Seq<OutModel>, from: nat, to: nat) -> Seq<u8>
    decreases to - from,
{
    if from >= to {
        Seq::empty()
    } else {
        record_bytes(entries[from as int], from) + records(entries, from + 1, to)
    }
}

/// A read of a directory hands out whole records, those of the entries that come
/// next, as many as fit, and goes on behind them: read until nothing comes, each
/// entry is handed out once and in order.
pub proof fn entries_are_handed_out_in_order(entries: Seq<OutModel>, place: nat, room: int)
    ensures
        ({
            let (bytes, next) = packed(entries, place, room);
            &&& bytes == records(entries, place, next)
            &&& room >= 0 ==> bytes.len() <= room
            &&& place <= next
            &&& place <= entries.len() ==> next <= entries.len()
            &&& next < entries.len() ==> bytes.len() + record_bytes(
                entries[next as int],
                next,
            ).len() > room
        }),
    decreases entries.len() - place,
{
    let (bytes, next) = packed(entries, place, room);
    if place < entries.len() {
        crate::fs::fd::dirents::record_has_its_length(entries[place as int], place);
        let len = record_len(encode_utf8(entries[place as int].name).len() as int);
        if len <= room {
            entries_are_handed_out_in_order(entries, place + 1, room - len);
        }
    }
}

/// Two reads one after the other hand out what one read of both would.
pub proof fn reading_on_hands_out_the_rest(entries: Seq<OutModel>, a: nat, b: nat, c: nat)
    requires
        a <= b <= c,
    ensures
        records(entries, a, b) + records(entries, b, c) == records(entries, a, c),
    decreases b - a,
{
    if a < b {
        reading_on_hands_out_the_rest(entries, a + 1, b, c);
        assert(records(entries, a, b) + records(entries, b, c) =~= records(entries, a, c));
    } else {
        assert(records(entries, a, b) + records(entries, b, c) =~= records(entries, a, c));
    }
}

/// A record holds the inode, where the next one is, its own length, whether it
/// stands for a directory, and the name, which a zero ends.
pub proof fn a_record_tells_its_entry(e: OutModel, place: nat)
    requires
        place + 1 <= u64::MAX,
        encode_utf8(e.name).len() <= 255,
    ensures
        ({
            let rec = record_bytes(e, place);
            let name = encode_utf8(e.name);
            &&& le_value(rec.subrange(0, 8)) == e.ino
            &&& le_value(rec.subrange(8, 16)) == place + 1
            &&& le_value(rec.subrange(16, 18)) == rec.len()
            &&& rec[18] == (if e.is_dir {
                4u8
            } else {
                8u8
            })
            &&& rec.subrange(19, 19 + name.len() as int) == name
            &&& rec[19 + name.len() as int] == 0
            &&& rec.len() % 8 == 0
            &&& rec.len() < 19 + name.len() + 9
        }),
{
    let rec = record_bytes(e, place);
    let name = encode_utf8(e.name);
    let len = record_len(name.len() as int);
    crate::fs::fd::dirents::record_has_its_length(e, place);
    le_round_trip(e.ino as nat, 8);
    le_round_trip(place + 1, 8);
    le_round_trip(len as nat, 2);
    assert(radix(8) > u64::MAX && radix(2) > 300) by {
        reveal_with_fuel(radix, 9);
    }
    assert(rec.subrange(0, 8) =~= crate::bytes::le_bytes(e.ino as nat, 8));
    assert(rec.subrange(8, 16) =~= crate::bytes::le_bytes(place + 1, 8));
    assert(rec.subrange(16, 18) =~= crate::bytes::le_bytes(len as nat, 2));
    assert(rec.subrange(19, 19 + name.len() as int) =~= name);
}

} // verus!
