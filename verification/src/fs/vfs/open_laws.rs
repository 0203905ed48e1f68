//! What opening a path means for what is opened.
use vstd::prelude::*;

use crate::errno::SysErrNo;
use crate::fs::block_dev::device::RawBlockDevice;
use crate::fs::ext4::caches::{page_cached, page_key};
use crate::fs::ext4::data::TruncateWork;
use crate::fs::ext4::mount::Ext4Volume;
use crate::fs::ext4::regular::CachedRegularFile;
use crate::fs::ext4::types::{kind_of_mode, Ext4NodeKind};
use crate::fs::ext4::volume::{Fault, Found, Load};
use crate::fs::fd::descriptor::FileDescriptor;
use crate::fs::fd::open_flags::{
    O_ACCMODE, O_APPEND, O_CREAT, O_DIRECTORY, O_EXCL, O_NOFOLLOW, O_PATH, O_RDONLY, O_RDWR,
    O_TRUNC, O_WRONLY,
};
use crate::fs::path::{normalize_is_idempotent, normalized};
use crate::fs::vfs::opening::{OpenCase, Opened, Wishes};
use crate::fs::vfs::tree::Vfs;
use crate::fs::vfs::types::{permitted, CredentialIdentity, R_OK, W_OK};
use crate::task::Caller;

verus! {

/// Whether flags ask for leave to write.
pub open spec fn asks_to_write(flags: u32) -> bool {
    flags & O_ACCMODE == O_WRONLY || flags & O_ACCMODE == O_RDWR
}

/// Whether flags ask for leave to read.
pub open spec fn asks_to_read(flags: u32) -> bool {
    flags & O_ACCMODE == O_RDONLY || flags & O_ACCMODE == O_RDWR
}

/// No byte that a file held is left in memory, and its length is zero or is about
/// to be made so on disk.
pub open spec fn nothing_is_left(
    was: &Ext4Volume,
    after: &Ext4Volume,
    ino: u32,
    work: TruncateWork,
) -> bool {
    &&& forall|page: int| 0 <= page <= usize::MAX ==> !#[trigger] page_cached(after.files().pages, ino, page)
    &&& !after.files().images.contains_key(ino as u128)
    &&& match work {
        TruncateWork::Cached => after.size_spec(ino) == Ok::<usize, Fault>(0),
        TruncateWork::Shrink => was.names.inodes@[ino as u128].size > 0
            && !after.files().regular.contains_key(ino as u128),
        TruncateWork::Keep => was.names.inodes@[ino as u128].size == 0
            && !after.files().regular.contains_key(ino as u128),
        TruncateWork::Grow => false,
    }
}

proof fn lemma_pages_forgotten(was: &Ext4Volume, after: &Ext4Volume, ino: u32)
    requires
        after.files().pages == was.files().without_pages(ino).pages,
    ensures
        forall|page: int|
            0 <= page <= usize::MAX ==> !#[trigger] page_cached(after.files().pages, ino, page),
{
    assert forall|page: int| 0 <= page <= usize::MAX implies !#[trigger] page_cached(
        after.files().pages,
        ino,
        page,
    ) by {
        assert(page_key(ino, 0) <= page_key(ino, page) <= page_key(ino, 0xffff_ffff_ffff_ffff));
    }
}

proof fn lemma_cut(was: &Ext4Volume, after: &Ext4Volume, ino: u32, now: u32, work: TruncateWork)
    requires
        was.names.mounted,
        was.names.inodes@.contains_key(ino as u128),
        kind_of_mode(was.names.inodes@[ino as u128].mode) == Ext4NodeKind::Regular,
        after.truncate_done(was, ino, 0, now, Ok::<TruncateWork, Fault>(work)),
    ensures
        nothing_is_left(was, after, ino, work),
        forall|i: u32| #[trigger] after.files().refs(i) == was.files().refs(i),
{
    if work == TruncateWork::Cached {
        let base = was.files().without_pages(ino).without_runs(ino).without_image(ino).unqueued(ino);
        let f = choose|f: CachedRegularFile| #[trigger]
            f.resized_to(&was.files().regular[ino as u128], 0, now) && f.wf()
                && after.file_changed(base, ino, f);
        assert(after.files().pages == base.pages);
        assert(after.files().regular[ino as u128].size == 0);
    }
    lemma_pages_forgotten(was, after, ino);
}

/// Whoever opens a file to write to it and asks for it to be emptied gets it
/// empty, wherever it lies, and starts at its beginning: of a file in memory
/// nothing is left under its name, and of one of the volume no byte that it held
/// can be had any more.
pub proof fn truncating_open_empties<D: RawBlockDevice>(
    was: &Vfs,
    after: &Vfs,
    dev: &D,
    host_path: Seq<char>,
    logical_path: Seq<char>,
    flags: u32,
    mode: u32,
    caller: &Caller,
    now: u32,
    o: Opened,
)
    requires
        was.wf(),
        flags & O_TRUNC != 0,
        asks_to_write(flags),
        after.opened(was, dev, host_path, logical_path, flags, mode, caller, now, Ok(o)),
    ensures
        match o {
            Opened::File(FileDescriptor::MemFile(h)) => {
                &&& h@.content.len() == 0
                &&& h@.offset == 0
                &&& h@.writable
                &&& after.files.mem@.file_index(normalized(h@.name)) is Some
                &&& after.files.mem@.backing_of(normalized(h@.name)).content.len() == 0
            },
            Opened::Cut(FileDescriptor::Ext4Regular { ino, offset, writable, .. }, work) => {
                &&& offset == 0
                &&& writable
                &&& was.files.vol.names.inodes@.contains_key(ino as u128)
                &&& kind_of_mode(was.files.vol.names.inodes@[ino as u128].mode)
                    == Ext4NodeKind::Regular ==> nothing_is_left(
                    &was.files.vol,
                    &after.files.vol,
                    ino,
                    work,
                )
            },
            Opened::Create(_, _) => true,
            _ => false,
        },
{
    let w = Wishes::of(flags);
    assert(w.trunc && w.write);
    let end = was.open_end(host_path, flags)->Ok_0;
    let case = was.end_case(dev, end, was.removed(host_path), w, caller)->Ok_0;
    let n = normalized(end);
    match case {
        OpenCase::MemFile => {
            was.files.mem.files_have_contents();
            let m = was.files.mem@;
            let t = m.truncate_file(caller, end, 0).0;
            assert(t.files == m.files);
            assert(t.file_index(n) == m.file_index(n)) by {
                assert forall|i: int| t.first_file(n, i) == m.first_file(n, i) by {}
            }
            let i = choose|i: int| m.first_file(n, i);
            assert(m.first_file(n, i));
        },
        OpenCase::New(crate::fs::vfs::removal::Side::Memory) => {
            crate::fs::memfs::laws::created_file_is_found(
                was.files.mem@,
                caller,
                end,
                Seq::empty(),
                mode,
            );
        },
        OpenCase::Ext4File(ino, _) => {
            let work = o->Cut_1;
            let mid = choose|mid: Ext4Volume|
                #![trigger mid.files()]
                mid.path_truncated(&was.files.vol, end, 0, now, Ok((ino, work)))
                    && after.files.vol.same_names(&mid) && after.files.vol.files()
                    == mid.files().opened(ino);
            assert(mid.truncate_done(&was.files.vol, ino, 0, now, Ok::<TruncateWork, Fault>(work)));
            if kind_of_mode(was.files.vol.names.inodes@[ino as u128].mode)
                == Ext4NodeKind::Regular {
                lemma_cut(&was.files.vol, &mid, ino, now, work);
            }
        },
        _ => {},
    }
}

/// Opening without leave to write, or without asking for it, empties nothing.
pub proof fn plain_open_keeps_contents<D: RawBlockDevice>(
    was: &Vfs,
    after: &Vfs,
    dev: &D,
    host_path: Seq<char>,
    logical_path: Seq<char>,
    flags: u32,
    mode: u32,
    caller: &Caller,
    now: u32,
    o: Opened,
)
    requires
        flags & O_TRUNC == 0 || !asks_to_write(flags),
        after.opened(was, dev, host_path, logical_path, flags, mode, caller, now, Ok(o)),
    ensures
        !(o is Cut),
        after.files.vol.files().regular == was.files.vol.files().regular,
        after.files.vol.files().pages == was.files.vol.files().pages,
        after.files.vol.files().images == was.files.vol.files().images,
        flags & O_CREAT == 0 ==> after.files.mem@ == was.files.mem@ && after.whiteouts
            == was.whiteouts,
{
}

/// An open file can be read, written and appended to exactly as was asked for,
/// and starts at its beginning, or at its end if it is written there.
pub proof fn open_file_does_what_was_asked<D: RawBlockDevice>(
    was: &Vfs,
    after: &Vfs,
    dev: &D,
    host_path: Seq<char>,
    logical_path: Seq<char>,
    flags: u32,
    mode: u32,
    caller: &Caller,
    now: u32,
    o: Opened,
    fd: FileDescriptor,
)
    requires
        flags & O_PATH == 0,
        after.opened(was, dev, host_path, logical_path, flags, mode, caller, now, Ok(o)),
        o == Opened::File(fd) || (o is Cut && o->Cut_0 == fd),
    ensures
        asks_to_read(flags) || asks_to_write(flags),
        match fd {
            FileDescriptor::MemFile(h) => {
                &&& h@.readable == asks_to_read(flags)
                &&& h@.writable == asks_to_write(flags)
                &&& h@.writable ==> h@.append == (flags & O_APPEND != 0)
                &&& h@.offset == (if asks_to_write(flags) && flags & O_APPEND != 0 {
                    h@.content.len()
                } else {
                    0
                })
            },
            FileDescriptor::Ext4Regular { ino, offset, readable, writable, append } => {
                &&& readable == asks_to_read(flags)
                &&& writable == asks_to_write(flags)
                &&& append == (flags & O_APPEND != 0)
                &&& asks_to_write(flags) && flags & O_APPEND != 0 && flags & O_TRUNC == 0
                    ==> was.files.vol.size_spec(ino) == Ok::<usize, Fault>(offset)
                &&& !(asks_to_write(flags) && flags & O_APPEND != 0) || flags & O_TRUNC != 0
                    ==> offset == 0
                &&& after.files.vol.files().refs(ino) == was.files.vol.files().refs(ino) + 1
                    || was.files.vol.files().refs(ino) >= usize::MAX
            },
            FileDescriptor::LoopDevice { offset, readable, writable, .. } => offset == 0
                && readable == asks_to_read(flags) && writable == asks_to_write(flags),
            FileDescriptor::MemDir { offset, .. } => offset == 0 && !asks_to_write(flags),
            FileDescriptor::Ext4Dir { offset, .. } => offset == 0 && !asks_to_write(flags),
            FileDescriptor::LoopControl => true,
            _ => false,
        },
{
    let w = Wishes::of(flags);
    let end = was.open_end(host_path, flags)->Ok_0;
    let case = was.end_case(dev, end, was.removed(host_path), w, caller)->Ok_0;
    assert(flags & O_ACCMODE == 0 || flags & O_ACCMODE == 1 || flags & O_ACCMODE == 2 || flags
        & O_ACCMODE == 3) by {
        assert(flags & 3 <= 3) by (bit_vector);
    }
    match case {
        OpenCase::Ext4File(ino, _) => {
            if o is Cut {
                let work = o->Cut_1;
                let mid = choose|mid: Ext4Volume|
                    #![trigger mid.files()]
                    mid.path_truncated(&was.files.vol, end, 0, now, Ok((ino, work)))
                        && after.files.vol.same_names(&mid) && after.files.vol.files()
                        == mid.files().opened(ino);
                assert(mid.truncate_done(
                    &was.files.vol,
                    ino,
                    0,
                    now,
                    Ok::<TruncateWork, Fault>(work),
                ));
                assert(mid.files().open_refs == was.files.vol.files().open_refs);
            }
        },
        _ => {},
    }
}

/// What is opened with the demand that it be new was not there: nothing in
/// memory had the name where the path ends, and no file or directory of the
/// volume, unless the name had been taken away.
pub proof fn exclusive_open_makes_something_new<D: RawBlockDevice>(
    was: &Vfs,
    after: &Vfs,
    dev: &D,
    host_path: Seq<char>,
    logical_path: Seq<char>,
    flags: u32,
    mode: u32,
    caller: &Caller,
    now: u32,
    o: Opened,
    end: Seq<char>,
)
    requires
        flags & O_PATH == 0,
        flags & O_CREAT != 0,
        flags & O_EXCL != 0,
        after.opened(was, dev, host_path, logical_path, flags, mode, caller, now, Ok(o)),
        was.open_end(host_path, flags) == Ok::<Seq<char>, Fault>(end),
    ensures
        was.files.mem@.file_index(normalized(end)) is None,
        !was.files.mem@.has_dir(normalized(end)),
        !was.files.mem@.specials.contains_key(normalized(end)),
        !was.removed(host_path) && !was.in_tmpfs(end) ==> was.kind_at(end) is Ok && was.kind_at(
            end,
        )->Ok_0 != Some(Ext4NodeKind::Regular) && was.kind_at(end)->Ok_0 != Some(
            Ext4NodeKind::Directory,
        ),
        o is Create || (o is File && o->File_0 is MemFile && o->File_0->MemFile_0@.content.len()
            == 0),
{
}

/// Nothing is made unless that is asked for: what is opened was there.
pub proof fn open_finds_what_is_there<D: RawBlockDevice>(
    was: &Vfs,
    after: &Vfs,
    dev: &D,
    host_path: Seq<char>,
    logical_path: Seq<char>,
    flags: u32,
    mode: u32,
    caller: &Caller,
    now: u32,
    o: Opened,
)
    requires
        flags & O_PATH == 0,
        flags & O_CREAT == 0,
        after.opened(was, dev, host_path, logical_path, flags, mode, caller, now, Ok(o)),
    ensures
        !(o is Create),
        !was.removed(host_path),
        ({
            let fd = if o is File {
                o->File_0
            } else {
                o->Cut_0
            };
            match fd {
                FileDescriptor::MemFile(h) => was.files.mem@.file_index(normalized(h@.name)) is Some
                    || was.fat_at(h@.name) is Some,
                FileDescriptor::Ext4Regular { ino, .. } => exists|end: Seq<char>|
                    was.open_end(host_path, flags) == Ok::<Seq<char>, Fault>(end)
                        && #[trigger] was.files.vol.names.lookup_spec(end) == Ok::<Found, Load>(
                        Some((ino, Ext4NodeKind::Regular)),
                    ),
                FileDescriptor::Ext4Dir { ino, .. } => exists|end: Seq<char>|
                    was.open_end(host_path, flags) == Ok::<Seq<char>, Fault>(end)
                        && #[trigger] was.files.vol.names.lookup_spec(end) == Ok::<Found, Load>(
                        Some((ino, Ext4NodeKind::Directory)),
                    ),
                _ => true,
            }
        }),
{
    let w = Wishes::of(flags);
    let end = was.open_end(host_path, flags)->Ok_0;
    let case = was.end_case(dev, end, was.removed(host_path), w, caller)->Ok_0;
    match case {
        OpenCase::Ext4File(ino, _) => {
            assert(was.files.vol.names.lookup_spec(end) == Ok::<Found, Load>(
                Some((ino, Ext4NodeKind::Regular)),
            ));
        },
        OpenCase::Ext4Dir(ino) => {
            assert(was.files.vol.names.lookup_spec(end) == Ok::<Found, Load>(
                Some((ino, Ext4NodeKind::Directory)),
            ));
        },
        _ => {},
    }
}

/// An open that fails changes nothing.
pub proof fn failed_open_changes_nothing<D: RawBlockDevice>(
    was: &Vfs,
    after: &Vfs,
    dev: &D,
    host_path: Seq<char>,
    logical_path: Seq<char>,
    flags: u32,
    mode: u32,
    caller: &Caller,
    now: u32,
    f: Fault,
)
    requires
        after.opened(was, dev, host_path, logical_path, flags, mode, caller, now, Err(f)),
    ensures
        *after == *was,
{
}

/// Some demands go together with nothing: leave of no kind, and a new directory.
/// Where a directory is demanded, nothing else is opened.
pub proof fn demands_that_are_refused<D: RawBlockDevice>(
    was: &Vfs,
    after: &Vfs,
    dev: &D,
    host_path: Seq<char>,
    logical_path: Seq<char>,
    flags: u32,
    mode: u32,
    caller: &Caller,
    now: u32,
    r: Result<Opened, Fault>,
)
    requires
        after.opened(was, dev, host_path, logical_path, flags, mode, caller, now, r),
    ensures
        flags & O_ACCMODE == O_ACCMODE ==> r == Err::<Opened, Fault>(Fault::Sys(SysErrNo::EINVAL)),
        flags & O_CREAT != 0 && flags & O_DIRECTORY != 0 ==> r == Err::<Opened, Fault>(
            Fault::Sys(SysErrNo::EINVAL),
        ),
        flags & O_PATH != 0 && (flags & O_CREAT != 0 || flags & O_TRUNC != 0) ==> r is Err,
        r is Ok && flags & O_PATH == 0 && flags & O_DIRECTORY != 0 ==> r->Ok_0 is File && (
        r->Ok_0->File_0 is MemDir || r->Ok_0->File_0 is Ext4Dir),
        r is Ok && flags & O_PATH != 0 ==> r->Ok_0 is File && r->Ok_0->File_0 is Path && *after
            == *was,
{
}

/// A link at the end of a path is not followed where that is forbidden: the path
/// is then not opened.
pub proof fn forbidden_links_are_not_followed<D: RawBlockDevice>(
    was: &Vfs,
    after: &Vfs,
    dev: &D,
    host_path: Seq<char>,
    logical_path: Seq<char>,
    flags: u32,
    mode: u32,
    caller: &Caller,
    now: u32,
    r: Result<Opened, Fault>,
)
    requires
        flags & O_NOFOLLOW != 0,
        flags & O_PATH == 0,
        flags & O_ACCMODE != O_ACCMODE,
        flags & O_DIRECTORY == 0 || flags & O_CREAT == 0,
        !was.removed(host_path),
        was.files.mem@.symlinks.contains_key(normalized(host_path)) || was.kind_at(
            normalized(host_path),
        ) == Ok::<Option<Ext4NodeKind>, Fault>(Some(Ext4NodeKind::Symlink)),
        after.opened(was, dev, host_path, logical_path, flags, mode, caller, now, r),
    ensures
        r == Err::<Opened, Fault>(Fault::Sys(SysErrNo::ELOOP)),
{
    normalize_is_idempotent(host_path);
}

/// A file that is there is opened only by a task with leave to do to it what it
/// asks for.
pub proof fn open_needs_leave<D: RawBlockDevice>(
    was: &Vfs,
    after: &Vfs,
    dev: &D,
    host_path: Seq<char>,
    logical_path: Seq<char>,
    flags: u32,
    mode: u32,
    caller: &Caller,
    now: u32,
    o: Opened,
    end: Seq<char>,
)
    requires
        flags & O_PATH == 0,
        after.opened(was, dev, host_path, logical_path, flags, mode, caller, now, Ok(o)),
        was.open_end(host_path, flags) == Ok::<Seq<char>, Fault>(end),
        was.files.mem@.file_index(normalized(end)) is Some || o is Cut || (o is File
            && o->File_0 is Ext4Regular) || (o is File && o->File_0 is Ext4Dir),
        Vfs::loop_case(end, Wishes::of(flags)) is None,
        was.fat_at(end) is None,
    ensures
        was.told(dev, end, true, caller.now) is Ok,
        ({
            let meta = was.told(dev, end, true, caller.now)->Ok_0;
            &&& asks_to_read(flags) ==> permitted(
                &meta,
                &caller.cred,
                R_OK,
                CredentialIdentity::Filesystem,
            )
            &&& asks_to_write(flags) ==> permitted(
                &meta,
                &caller.cred,
                W_OK,
                CredentialIdentity::Filesystem,
            )
        }),
        was.reachable(dev, end, CredentialIdentity::Filesystem, caller) is Ok,
{
    assert((4usize | 2usize) & 4usize != 0 && (4usize | 2usize) & 2usize != 0 && (4usize | 2usize)
        & 1usize == 0 && 4usize & 1usize == 0 && 4usize & 2usize == 0 && 2usize & 1usize == 0
        && 2usize & 4usize == 0 && 4usize & 4usize != 0 && 2usize & 2usize != 0) by (bit_vector);
}

} // verus!
