//! The open files of a process, by their numbers.
use vstd::prelude::*;

use crate::errno::SysErrNo;
use crate::fs::ext4::mount::FilesModel;
use crate::fs::fd::descriptor::{FileDescriptor, Files};
use crate::fs::fd::lifecycle::{alike, ends_changed, same_channels};

verus! {

/// How many files a process can have open.
pub const MAX_FD_NUM: usize = 1024;

/// The number of the standard input.
pub const STDIN_FD: usize = 0;

/// The number of the standard output.
pub const STDOUT_FD: usize = 1;

/// The number of the standard error output.
pub const STDERR_FD: usize = 2;

/// The flag of a file that is closed when another program is started.
pub const FD_CLOEXEC: usize = 1;

/// The open files of a process.
pub struct FileDescriptorTable {
    pub fds: Vec<Option<FileDescriptor>>,
    pub flags: Vec<usize>,
    pub next_fd_hint: usize,
    pub cloexec_count: usize,
}

/// How many of some flags say that the file is closed when another program is
/// started.
pub open spec fn cloexecs(flags: Seq<usize>) -> nat
    decreases flags.len(),
{
    if flags.len() == 0 {
        0
    } else {
        cloexecs(flags.drop_last()) + (if flags.last() == FD_CLOEXEC {
            1nat
        } else {
            0
        })
    }
}

proof fn lemma_cloexecs_update(flags: Seq<usize>, i: int, v: usize)
    requires
        0 <= i < flags.len(),
    ensures
        cloexecs(flags.update(i, v)) == cloexecs(flags) - (if flags[i] == FD_CLOEXEC {
            1int
        } else {
            0
        }) + (if v == FD_CLOEXEC {
            1int
        } else {
            0
        }),
    decreases flags.len(),
{
    if i == flags.len() - 1 {
        assert(flags.update(i, v).drop_last() =~= flags.drop_last());
    } else {
        lemma_cloexecs_update(flags.drop_last(), i, v);
        assert(flags.update(i, v).drop_last() =~= flags.drop_last().update(i, v));
    }
}

proof fn lemma_cloexecs_zero(flags: Seq<usize>)
    ensures
        cloexecs(flags) <= flags.len(),
        cloexecs(flags) == 0 <==> forall|i: int| 0 <= i < flags.len() ==> #[trigger] flags[i]
            != FD_CLOEXEC,
    decreases flags.len(),
{
    if flags.len() > 0 {
        let front = flags.drop_last();
        lemma_cloexecs_zero(front);
        if cloexecs(flags) == 0 {
            assert forall|i: int| 0 <= i < flags.len() implies #[trigger] flags[i] != FD_CLOEXEC by {
                if i < front.len() {
                    assert(front[i] == flags[i]);
                }
            }
        } else if cloexecs(front) > 0 {
            let i = choose|i: int| 0 <= i < front.len() && #[trigger] front[i] == FD_CLOEXEC;
            assert(flags[i] == FD_CLOEXEC);
        } else {
            assert(flags[flags.len() - 1] == FD_CLOEXEC);
        }
    }
}

/// How many places of a table are taken.
pub open spec fn taken(fds: Seq<Option<FileDescriptor>>) -> nat
    decreases fds.len(),
{
    if fds.len() == 0 {
        0
    } else {
        taken(fds.drop_last()) + (if fds.last() is Some {
            1nat
        } else {
            0
        })
    }
}

impl FileDescriptorTable {
    /// There are as many places as there should be, only open files have flags,
    /// their number is right, and all places in front of the hint are taken.
    pub open spec fn wf(&self) -> bool {
        &&& self.fds@.len() == MAX_FD_NUM
        &&& self.flags@.len() == MAX_FD_NUM
        &&& forall|i: int|
            0 <= i < MAX_FD_NUM ==> #[trigger] self.flags@[i] == 0 || (self.flags@[i] == FD_CLOEXEC
                && self.fds@[i] is Some)
        &&& self.cloexec_count == cloexecs(self.flags@)
        &&& self.next_fd_hint <= MAX_FD_NUM
        &&& forall|i: int| 0 <= i < self.next_fd_hint ==> (#[trigger] self.fds@[i]) is Some
    }

    /// All that the files stand for is there.
    pub open spec fn alive(&self, files: &Files) -> bool {
        forall|i: int|
            0 <= i < self.fds@.len() && (#[trigger] self.fds@[i]) is Some ==> self.fds@[i]->0.wf(
                &files.channels,
            )
    }

    /// Whether a place is the first free one in a range.
    pub open spec fn first_free(&self, start: int, limit: int, i: int) -> bool {
        &&& start <= i < limit
        &&& self.fds@[i] is None
        &&& forall|j: int| start <= j < i ==> (#[trigger] self.fds@[j]) is Some
    }

    /// Whether a number stands for an open file.
    pub open spec fn is_open(&self, fd: usize) -> bool {
        fd < MAX_FD_NUM && self.fds@[fd as int] is Some
    }

    /// A table with the standard files.
    pub fn new() -> (r: Self)
        ensures
            r.wf(),
            r.fds@[0] == Some(FileDescriptor::Stdin),
            r.fds@[1] == Some(FileDescriptor::Stdout),
            r.fds@[2] == Some(FileDescriptor::Stderr),
            forall|i: int| 3 <= i < MAX_FD_NUM ==> (#[trigger] r.fds@[i]) is None,
            forall|i: int| 0 <= i < MAX_FD_NUM ==> #[trigger] r.flags@[i] == 0,
            r.next_fd_hint == 3,
    {
        let mut fds: Vec<Option<FileDescriptor>> = Vec::new();
        let mut flags: Vec<usize> = Vec::new();
        fds.push(Some(FileDescriptor::Stdin));
        fds.push(Some(FileDescriptor::Stdout));
        fds.push(Some(FileDescriptor::Stderr));
        while fds.len() < MAX_FD_NUM
            invariant
                3 <= fds@.len() <= MAX_FD_NUM,
                fds@[0] == Some(FileDescriptor::Stdin),
                fds@[1] == Some(FileDescriptor::Stdout),
                fds@[2] == Some(FileDescriptor::Stderr),
                forall|i: int| 3 <= i < fds@.len() ==> (#[trigger] fds@[i]) is None,
            decreases MAX_FD_NUM - fds@.len(),
        {
            fds.push(None);
        }
        while flags.len() < MAX_FD_NUM
            invariant
                flags@.len() <= MAX_FD_NUM,
                forall|i: int| 0 <= i < flags@.len() ==> #[trigger] flags@[i] == 0,
            decreases MAX_FD_NUM - flags@.len(),
        {
            flags.push(0);
        }
        proof {
            lemma_cloexecs_zero(flags@);
        }
        FileDescriptorTable { fds, flags, next_fd_hint: 3, cloexec_count: 0 }
    }

    /// The kept part of flags.
    pub open spec fn kept_flags(flags: usize) -> usize {
        flags & FD_CLOEXEC
    }

    fn keep(flags: usize) -> (r: usize)
        ensures
            r == FileDescriptorTable::kept_flags(flags),
            r == 0 || r == FD_CLOEXEC,
    {
        let r: usize = flags & FD_CLOEXEC;
        assert(r == 0 || r == 1) by (bit_vector)
            requires
                r == flags & 1,
        ;
        r
    }

    /// The table after a file was put at a place.
    pub open spec fn placed(
        &self,
        was: &FileDescriptorTable,
        index: int,
        fd: FileDescriptor,
        flags: usize,
    ) -> bool {
        &&& self.fds@ == was.fds@.update(index, Some(fd))
        &&& self.flags@ == was.flags@.update(index, FileDescriptorTable::kept_flags(flags))
    }

    fn set_slot(&mut self, index: usize, fd: FileDescriptor, flags: usize) -> (r: Option<
        FileDescriptor,
    >)
        requires
            old(self).wf(),
            index < MAX_FD_NUM,
        ensures
            final(self).wf(),
            final(self).placed(old(self), index as int, fd, flags),
            r == old(self).fds@[index as int],
    {
        let ghost was = self.flags@;
        let kept: usize = FileDescriptorTable::keep(flags);
        proof {
            lemma_cloexecs_update(was, index as int, kept);
            lemma_cloexecs_zero(was);
            lemma_cloexecs_zero(was.update(index as int, kept));
        }
        if self.flags[index] == FD_CLOEXEC {
            self.cloexec_count = self.cloexec_count - 1;
        }
        let ghost before = self.fds@;
        let previous = self.fds.remove(index);
        self.fds.insert(index, Some(fd));
        assert(self.fds@ =~= before.update(index as int, Some(fd)));
        self.flags.set(index, kept);
        if kept == FD_CLOEXEC {
            self.cloexec_count = self.cloexec_count + 1;
        }
        if self.next_fd_hint == MAX_FD_NUM || index <= self.next_fd_hint {
            self.next_fd_hint = index + 1;
        }
        previous
    }

    /// The table after a place was emptied.
    pub open spec fn emptied(&self, was: &FileDescriptorTable, index: int) -> bool {
        &&& self.fds@ == was.fds@.update(index, None)
        &&& self.flags@ == was.flags@.update(index, 0)
    }

    fn clear_slot(&mut self, index: usize) -> (r: Option<FileDescriptor>)
        requires
            old(self).wf(),
            index < MAX_FD_NUM,
        ensures
            final(self).wf(),
            final(self).emptied(old(self), index as int),
            r == old(self).fds@[index as int],
    {
        let ghost was = self.flags@;
        proof {
            lemma_cloexecs_update(was, index as int, 0);
            lemma_cloexecs_zero(was);
        }
        if self.flags[index] == FD_CLOEXEC {
            self.cloexec_count = self.cloexec_count - 1;
        }
        let ghost before = self.fds@;
        let previous = self.fds.remove(index);
        self.fds.insert(index, None);
        assert(self.fds@ =~= before.update(index as int, None));
        self.flags.set(index, 0);
        if index < self.next_fd_hint {
            self.next_fd_hint = index;
        }
        previous
    }

    fn find_free(&self, start: usize, limit: usize) -> (r: Option<usize>)
        requires
            self.wf(),
            limit <= MAX_FD_NUM,
        ensures
            match r {
                Some(i) => self.first_free(start as int, limit as int, i as int),
                None => forall|j: int| start <= j < limit ==> (#[trigger] self.fds@[j]) is Some,
            },
    {
        let mut i: usize = start;
        while i < limit
            invariant
                self.wf(),
                limit <= MAX_FD_NUM,
                start <= i,
                forall|j: int| start <= j < i && j < limit ==> (#[trigger] self.fds@[j]) is Some,
            decreases limit - i,
        {
            if self.fds[i].is_none() {
                return Some(i);
            }
            i = i + 1;
        }
        None
    }

    /// The end of the places up to a limit.
    pub open spec fn capped(limit: usize) -> int {
        if limit < MAX_FD_NUM {
            limit as int
        } else {
            MAX_FD_NUM as int
        }
    }

    /// What putting a file at the first free place of a range does: where there
    /// is none, the file is closed.
    pub open spec fn allocated(
        &self,
        was: &FileDescriptorTable,
        files: &Files,
        files_was: &Files,
        start: usize,
        limit: usize,
        fd: FileDescriptor,
        flags: usize,
        r: Option<usize>,
    ) -> bool {
        match r {
            Some(i) => {
                &&& was.first_free(start as int, FileDescriptorTable::capped(limit), i as int)
                &&& self.placed(was, i as int, fd, flags)
                &&& *files == *files_was
            },
            None => {
                &&& forall|j: int|
                    start <= j < FileDescriptorTable::capped(limit) ==> (
                    #[trigger] was.fds@[j]) is Some
                &&& *self == *was
                &&& fd.closed(files, files_was)
            },
        }
    }

    fn alloc_slot_from(
        &mut self,
        files: &mut Files,
        start: usize,
        limit: usize,
        fd: FileDescriptor,
        flags: usize,
    ) -> (r: Option<usize>)
        requires
            old(self).wf(),
            old(files).wf(),
            old(self).alive(old(files)),
            fd.wf(&old(files).channels),
        ensures
            final(self).wf(),
            final(files).wf(),
            final(self).alive(final(files)),
            final(self).allocated(
                old(self),
                final(files),
                old(files),
                start,
                limit,
                fd,
                flags,
                r,
            ),
    {
        let limit: usize = if limit < MAX_FD_NUM {
            limit
        } else {
            MAX_FD_NUM
        };
        let scan: usize = if start == 0 && self.next_fd_hint < limit {
            self.next_fd_hint
        } else if start == 0 {
            limit
        } else {
            start
        };
        match self.find_free(scan, limit) {
            Some(i) => {
                let ghost was = *self;
                let _ = self.set_slot(i, fd, flags);
                assert(self.alive(files)) by {
                    assert forall|j: int|
                        0 <= j < self.fds@.len() && (#[trigger] self.fds@[j]) is Some implies self.fds@[j]->0.wf(
                        &files.channels,
                    ) by {
                        if j != i {
                            assert(self.fds@[j] == was.fds@[j]);
                        }
                    }
                }
                Some(i)
            },
            None => {
                let ghost was = *files;
                fd.close(files);
                proof {
                    lemma_still_alive(self, files, &was);
                }
                None
            },
        }
    }

    /// Gives a file the lowest free number.
    pub fn alloc_fd(&mut self, files: &mut Files, fd: FileDescriptor) -> (r: Option<usize>)
        requires
            old(self).wf(),
            old(files).wf(),
            old(self).alive(old(files)),
            fd.wf(&old(files).channels),
        ensures
            final(self).wf(),
            final(files).wf(),
            final(self).alive(final(files)),
            final(self).allocated(
                old(self),
                final(files),
                old(files),
                0,
                MAX_FD_NUM,
                fd,
                0,
                r,
            ),
    {
        self.alloc_with_flags(files, fd, 0)
    }

    /// Gives a file the lowest free number, and flags.
    pub fn alloc_with_flags(&mut self, files: &mut Files, fd: FileDescriptor, flags: usize) -> (r:
        Option<usize>)
        requires
            old(self).wf(),
            old(files).wf(),
            old(self).alive(old(files)),
            fd.wf(&old(files).channels),
        ensures
            final(self).wf(),
            final(files).wf(),
            final(self).alive(final(files)),
            final(self).allocated(
                old(self),
                final(files),
                old(files),
                0,
                MAX_FD_NUM,
                fd,
                flags,
                r,
            ),
    {
        self.alloc_with_flags_below(files, fd, flags, MAX_FD_NUM)
    }

    /// Gives a file the lowest free number below a limit, and flags.
    pub fn alloc_with_flags_below(
        &mut self,
        files: &mut Files,
        fd: FileDescriptor,
        flags: usize,
        limit: usize,
    ) -> (r: Option<usize>)
        requires
            old(self).wf(),
            old(files).wf(),
            old(self).alive(old(files)),
            fd.wf(&old(files).channels),
        ensures
            final(self).wf(),
            final(files).wf(),
            final(self).alive(final(files)),
            final(self).allocated(
                old(self),
                final(files),
                old(files),
                0,
                limit,
                fd,
                flags,
                r,
            ),
    {
        self.alloc_slot_from(files, 0, limit, fd, flags)
    }

    /// Gives a file the lowest free number from one on.
    pub fn alloc_from(&mut self, files: &mut Files, start: usize, fd: FileDescriptor) -> (r: Option<
        usize,
    >)
        requires
            old(self).wf(),
            old(files).wf(),
            old(self).alive(old(files)),
            fd.wf(&old(files).channels),
        ensures
            final(self).wf(),
            final(files).wf(),
            final(self).alive(final(files)),
            final(self).allocated(
                old(self),
                final(files),
                old(files),
                start,
                MAX_FD_NUM,
                fd,
                0,
                r,
            ),
    {
        self.alloc_from_with_flags(files, start, fd, 0)
    }

    /// Gives a file the lowest free number from one on, and flags.
    pub fn alloc_from_with_flags(
        &mut self,
        files: &mut Files,
        start: usize,
        fd: FileDescriptor,
        flags: usize,
    ) -> (r: Option<usize>)
        requires
            old(self).wf(),
            old(files).wf(),
            old(self).alive(old(files)),
            fd.wf(&old(files).channels),
        ensures
            final(self).wf(),
            final(files).wf(),
            final(self).alive(final(files)),
            final(self).allocated(
                old(self),
                final(files),
                old(files),
                start,
                MAX_FD_NUM,
                fd,
                flags,
                r,
            ),
    {
        self.alloc_from_with_flags_below(files, start, fd, flags, MAX_FD_NUM)
    }

    /// Gives a file the lowest free number from one on and below a limit, and
    /// flags.
    pub fn alloc_from_with_flags_below(
        &mut self,
        files: &mut Files,
        start: usize,
        fd: FileDescriptor,
        flags: usize,
        limit: usize,
    ) -> (r: Option<usize>)
        requires
            old(self).wf(),
            old(files).wf(),
            old(self).alive(old(files)),
            fd.wf(&old(files).channels),
        ensures
            final(self).wf(),
            final(files).wf(),
            final(self).alive(final(files)),
            final(self).allocated(
                old(self),
                final(files),
                old(files),
                start,
                limit,
                fd,
                flags,
                r,
            ),
    {
        self.alloc_slot_from(files, start, limit, fd, flags)
    }

    /// What closing the file at a place, if there is one, does.
    pub open spec fn closed_at(&self, files: &Files, was: &Files, index: int) -> bool {
        match self.fds@[index] {
            Some(fd) => fd.closed(files, was),
            None => *files == *was,
        }
    }

    /// Gives a file a number; what had it is closed.
    pub fn alloc_at(&mut self, files: &mut Files, index: usize, fd: FileDescriptor) -> (r: Result<
        (),
        SysErrNo,
    >)
        requires
            old(self).wf(),
            old(files).wf(),
            old(self).alive(old(files)),
            fd.wf(&old(files).channels),
        ensures
            final(self).wf(),
            final(files).wf(),
            final(self).alive(final(files)),
            index >= MAX_FD_NUM ==> r == Err::<(), SysErrNo>(SysErrNo::EBADF) && *final(self)
                == *old(self) && fd.closed(final(files), old(files)),
            index < MAX_FD_NUM ==> r is Ok && final(self).placed(old(self), index as int, fd, 0)
                && old(self).closed_at(final(files), old(files), index as int),
    {
        let ghost was = *files;
        let ghost first = *self;
        if index >= MAX_FD_NUM {
            fd.close(files);
            proof {
                lemma_still_alive(self, files, &was);
            }
            return Err(SysErrNo::EBADF);
        }
        assert(first.fds@[index as int] is Some ==> first.fds@[index as int]->0.wf(&files.channels));
        match self.set_slot(index, fd, 0) {
            Some(previous) => {
                previous.close(files);
            },
            None => {},
        }
        assert forall|j: int|
            0 <= j < self.fds@.len() && (#[trigger] self.fds@[j]) is Some implies self.fds@[j]->0.wf(
            &was.channels,
        ) by {
            if j != index {
                assert(self.fds@[j] == first.fds@[j]);
            }
        }
        proof {
            lemma_still_alive(self, files, &was);
        }
        Ok(())
    }

    /// The file of a number.
    pub fn get(&self, fd: usize) -> (r: Option<&FileDescriptor>)
        requires
            self.wf(),
        ensures
            match r {
                Some(file) => self.is_open(fd) && *file == self.fds@[fd as int]->0,
                None => !self.is_open(fd),
            },
    {
        if fd >= MAX_FD_NUM {
            return None;
        }
        match &self.fds[fd] {
            Some(file) => Some(file),
            None => None,
        }
    }

    /// The file of a number, to be changed in its place.
    pub fn get_mut(&mut self, fd: usize) -> (r: Option<&mut FileDescriptor>)
        requires
            old(self).wf(),
        ensures
            match r {
                Some(file) => {
                    &&& old(self).is_open(fd)
                    &&& *file == old(self).fds@[fd as int]->0
                    &&& final(self).fds@ == old(self).fds@.update(fd as int, Some(*final(file)))
                    &&& final(self).flags == old(self).flags
                    &&& final(self).next_fd_hint == old(self).next_fd_hint
                    &&& final(self).cloexec_count == old(self).cloexec_count
                },
                None => !old(self).is_open(fd) && *final(self) == *old(self),
            },
    {
        if fd >= MAX_FD_NUM {
            return None;
        }
        if self.fds[fd].is_none() {
            return None;
        }
        self.fds[fd].as_mut()
    }

    /// Takes the file of a number out of the table.
    pub fn remove(&mut self, fd: usize) -> (r: Result<FileDescriptor, SysErrNo>)
        requires
            old(self).wf(),
        ensures
            final(self).wf(),
            match r {
                Ok(file) => old(self).is_open(fd) && file == old(self).fds@[fd as int]->0
                    && final(self).emptied(old(self), fd as int),
                Err(e) => !old(self).is_open(fd) && e == SysErrNo::EBADF && *final(self) == *old(self),
            },
    {
        if fd >= MAX_FD_NUM {
            return Err(SysErrNo::EBADF);
        }
        if self.fds[fd].is_none() {
            return Err(SysErrNo::EBADF);
        }
        match self.clear_slot(fd) {
            Some(file) => Ok(file),
            None => Err(SysErrNo::EBADF),
        }
    }

    /// Closes the file of a number.
    pub fn free(&mut self, files: &mut Files, fd: usize) -> (r: Result<(), SysErrNo>)
        requires
            old(self).wf(),
            old(files).wf(),
            old(self).alive(old(files)),
        ensures
            final(self).wf(),
            final(files).wf(),
            final(self).alive(final(files)),
            !old(self).is_open(fd) ==> r == Err::<(), SysErrNo>(SysErrNo::EBADF) && *final(self)
                == *old(self) && *final(files) == *old(files),
            old(self).is_open(fd) ==> r is Ok && final(self).emptied(old(self), fd as int) && old(self).closed_at(final(files), old(files), fd as int),
    {
        let ghost was = *files;
        let ghost first = *self;
        match self.remove(fd) {
            Err(e) => Err(e),
            Ok(file) => {
                assert(first.fds@[fd as int]->0.wf(&was.channels));
                file.close(files);
                assert forall|j: int|
                    0 <= j < self.fds@.len() && (#[trigger] self.fds@[j]) is Some implies self.fds@[j]->0.wf(
                    &was.channels,
                ) by {
                    assert(self.fds@[j] == first.fds@[j]);
                }
                proof {
                    lemma_still_alive(self, files, &was);
                }
                Ok(())
            },
        }
    }

    /// The flags of a number.
    pub fn fd_flags(&self, fd: usize) -> (r: Result<usize, SysErrNo>)
        requires
            self.wf(),
        ensures
            r == (if self.is_open(fd) {
                Ok::<usize, SysErrNo>(self.flags@[fd as int])
            } else {
                Err(SysErrNo::EBADF)
            }),
    {
        if fd >= MAX_FD_NUM || self.fds[fd].is_none() {
            return Err(SysErrNo::EBADF);
        }
        Ok(self.flags[fd])
    }

    /// Sets the flags of a number.
    pub fn set_fd_flags(&mut self, fd: usize, flags: usize) -> (r: Result<(), SysErrNo>)
        requires
            old(self).wf(),
        ensures
            final(self).wf(),
            final(self).fds@ == old(self).fds@,
            !old(self).is_open(fd) ==> r == Err::<(), SysErrNo>(SysErrNo::EBADF) && *final(self)
                == *old(self),
            old(self).is_open(fd) ==> r is Ok && final(self).flags@ == old(self).flags@.update(
                fd as int,
                FileDescriptorTable::kept_flags(flags),
            ),
    {
        if fd >= MAX_FD_NUM || self.fds[fd].is_none() {
            return Err(SysErrNo::EBADF);
        }
        let ghost was = self.flags@;
        let kept: usize = FileDescriptorTable::keep(flags);
        proof {
            lemma_cloexecs_update(was, fd as int, kept);
            lemma_cloexecs_zero(was);
            lemma_cloexecs_zero(was.update(fd as int, kept));
        }
        if self.flags[fd] == FD_CLOEXEC {
            self.cloexec_count = self.cloexec_count - 1;
        }
        self.flags.set(fd, kept);
        if kept == FD_CLOEXEC {
            self.cloexec_count = self.cloexec_count + 1;
        }
        Ok(())
    }

    /// Takes all files out that are closed when another program is started, in
    /// the order of their numbers.
    pub fn close_on_exec(&mut self) -> (closed: Vec<FileDescriptor>)
        requires
            old(self).wf(),
        ensures
            final(self).wf(),
            forall|i: int|
                0 <= i < MAX_FD_NUM ==> #[trigger] final(self).fds@[i] == (if old(self).flags@[i]
                    == FD_CLOEXEC {
                    None
                } else {
                    old(self).fds@[i]
                }),
            forall|i: int| 0 <= i < MAX_FD_NUM ==> #[trigger] final(self).flags@[i] == 0,
            closed@ == marked(old(self).fds@, old(self).flags@, MAX_FD_NUM as nat),
    {
        let ghost first = *self;
        let mut closed: Vec<FileDescriptor> = Vec::new();
        if self.cloexec_count == 0 {
            proof {
                lemma_cloexecs_zero(self.flags@);
                lemma_nothing_marked(first.fds@, first.flags@, MAX_FD_NUM as nat);
            }
            return closed;
        }
        let mut index: usize = 0;
        while index < MAX_FD_NUM
            invariant
                self.wf(),
                first.wf(),
                0 <= index <= MAX_FD_NUM,
                forall|i: int|
                    0 <= i < index ==> #[trigger] self.fds@[i] == (if first.flags@[i]
                        == FD_CLOEXEC {
                        None
                    } else {
                        first.fds@[i]
                    }),
                forall|i: int| 0 <= i < index ==> #[trigger] self.flags@[i] == 0,
                forall|i: int|
                    index <= i < MAX_FD_NUM ==> #[trigger] self.fds@[i] == first.fds@[i],
                forall|i: int|
                    index <= i < MAX_FD_NUM ==> #[trigger] self.flags@[i] == first.flags@[i],
                closed@ == marked(first.fds@, first.flags@, index as nat),
            decreases MAX_FD_NUM - index,
        {
            if self.fds[index].is_some() && self.flags[index] == FD_CLOEXEC {
                match self.clear_slot(index) {
                    Some(file) => {
                        closed.push(file);
                    },
                    None => {},
                }
            }
            index = index + 1;
        }
        closed
    }

    /// Takes all files out, in the order of their numbers.
    pub fn close_all(&mut self) -> (closed: Vec<FileDescriptor>)
        requires
            old(self).wf(),
        ensures
            final(self).wf(),
            forall|i: int| 0 <= i < MAX_FD_NUM ==> (#[trigger] final(self).fds@[i]) is None,
            final(self).next_fd_hint == 0,
            closed@ == opened(old(self).fds@, MAX_FD_NUM as nat),
    {
        let ghost first = *self;
        let mut closed: Vec<FileDescriptor> = Vec::new();
        let mut index: usize = 0;
        while index < MAX_FD_NUM
            invariant
                self.wf(),
                first.wf(),
                0 <= index <= MAX_FD_NUM,
                index > 0 ==> self.next_fd_hint == 0,
                forall|i: int| 0 <= i < index ==> (#[trigger] self.fds@[i]) is None,
                forall|i: int|
                    index <= i < MAX_FD_NUM ==> #[trigger] self.fds@[i] == first.fds@[i],
                closed@ == opened(first.fds@, index as nat),
            decreases MAX_FD_NUM - index,
        {
            match self.clear_slot(index) {
                Some(file) => {
                    closed.push(file);
                },
                None => {},
            }
            proof {
                if index == 0 && self.next_fd_hint > 0 {
                    assert(self.fds@[0] is Some);
                }
            }
            index = index + 1;
        }
        closed
    }

    /// Gives a copy of a file the lowest free number.
    pub fn dup(&mut self, files: &mut Files, old_fd: usize) -> (r: Result<usize, SysErrNo>)
        requires
            old(self).wf(),
            old(files).wf(),
            old(self).alive(old(files)),
            old(self).is_open(old_fd) ==> old(self).fds@[old_fd as int]->0.can_copy(old(files)),
        ensures
            final(self).wf(),
            final(files).wf(),
            final(self).alive(final(files)),
            final(self).duplicated(
                old(self),
                final(files),
                old(files),
                old_fd,
                MAX_FD_NUM,
                r,
            ),
    {
        self.dup_below(files, old_fd, MAX_FD_NUM)
    }

    /// What giving a copy of a file the lowest free number below a limit does.
    pub open spec fn duplicated(
        &self,
        was: &FileDescriptorTable,
        files: &Files,
        files_was: &Files,
        old_fd: usize,
        limit: usize,
        r: Result<usize, SysErrNo>,
    ) -> bool {
        if !was.is_open(old_fd) {
            r == Err::<usize, SysErrNo>(SysErrNo::EBADF) && *self == *was && *files == *files_was
        } else {
            exists|copy: FileDescriptor, mid: Files| #[trigger]
                was.fds@[old_fd as int]->0.copied(&mid, files_was) && #[trigger] alike(
                    copy,
                    was.fds@[old_fd as int]->0,
                ) && self.allocated(was, files, &mid, 0, limit, copy, 0, r.ok()) && (r is Err ==> r
                    == Err::<usize, SysErrNo>(SysErrNo::EMFILE))
        }
    }

    /// Gives a copy of a file the lowest free number below a limit.
    pub fn dup_below(&mut self, files: &mut Files, old_fd: usize, limit: usize) -> (r: Result<
        usize,
        SysErrNo,
    >)
        requires
            old(self).wf(),
            old(files).wf(),
            old(self).alive(old(files)),
            old(self).is_open(old_fd) ==> old(self).fds@[old_fd as int]->0.can_copy(old(files)),
        ensures
            final(self).wf(),
            final(files).wf(),
            final(self).alive(final(files)),
            final(self).duplicated(old(self), final(files), old(files), old_fd, limit, r),
    {
        let ghost was = *files;
        let ghost first = *self;
        let copy = match self.get(old_fd) {
            None => {
                return Err(SysErrNo::EBADF);
            },
            Some(file) => {
                assert(self.fds@[old_fd as int] is Some);
                file.duplicate(files)
            },
        };
        let ghost kept = copy;
        let ghost mid = *files;
        proof {
            lemma_still_alive(self, files, &was);
        }
        let r = self.alloc_with_flags_below(files, copy, 0, limit);
        assert(first.fds@[old_fd as int]->0.copied(&mid, &was));
        assert(alike(kept, first.fds@[old_fd as int]->0));
        match r {
            Some(fd) => {
                assert(Ok::<usize, SysErrNo>(fd).ok() == r);
                Ok(fd)
            },
            None => {
                assert(Err::<usize, SysErrNo>(SysErrNo::EMFILE).ok() == r);
                Err(SysErrNo::EMFILE)
            },
        }
    }

    /// Gives a copy of a file a number; what had it is closed.
    pub fn dup2(&mut self, files: &mut Files, old_fd: usize, new_fd: usize) -> (r: Result<
        usize,
        SysErrNo,
    >)
        requires
            old(self).wf(),
            old(files).wf(),
            old(self).alive(old(files)),
            old(files).copies_left(),
        ensures
            final(self).wf(),
            final(files).wf(),
            final(self).alive(final(files)),
            final(self).replaced(
                old(self),
                final(files),
                old(files),
                old_fd,
                new_fd,
                MAX_FD_NUM,
                r,
            ),
    {
        self.dup2_below(files, old_fd, new_fd, MAX_FD_NUM)
    }

    /// What giving a copy of a file a number below a limit does.
    pub open spec fn replaced(
        &self,
        was: &FileDescriptorTable,
        files: &Files,
        files_was: &Files,
        old_fd: usize,
        new_fd: usize,
        limit: usize,
        r: Result<usize, SysErrNo>,
    ) -> bool {
        if !was.is_open(old_fd) || new_fd >= FileDescriptorTable::capped(limit) {
            r == Err::<usize, SysErrNo>(SysErrNo::EBADF) && *self == *was && *files == *files_was
        } else if old_fd == new_fd {
            r == Ok::<usize, SysErrNo>(new_fd) && *self == *was && *files == *files_was
        } else {
            &&& r == Ok::<usize, SysErrNo>(new_fd)
            &&& exists|copy: FileDescriptor, mid: Files|
                was.closed_at(&mid, files_was, new_fd as int) && #[trigger]
                was.fds@[old_fd as int]->0.copied(files, &mid) && #[trigger] alike(
                    copy,
                    was.fds@[old_fd as int]->0,
                ) && self.placed(was, new_fd as int, copy, 0)
        }
    }

    /// Gives a copy of a file a number below a limit; what had it is closed.
    pub fn dup2_below(&mut self, files: &mut Files, old_fd: usize, new_fd: usize, limit: usize) -> (r:
        Result<usize, SysErrNo>)
        requires
            old(self).wf(),
            old(files).wf(),
            old(self).alive(old(files)),
            old(files).copies_left(),
        ensures
            final(self).wf(),
            final(files).wf(),
            final(self).alive(final(files)),
            final(self).replaced(
                old(self),
                final(files),
                old(files),
                old_fd,
                new_fd,
                limit,
                r,
            ),
    {
        let ghost was = *files;
        let ghost first = *self;
        if old_fd >= MAX_FD_NUM || self.fds[old_fd].is_none() {
            return Err(SysErrNo::EBADF);
        }
        if new_fd >= limit || new_fd >= MAX_FD_NUM {
            return Err(SysErrNo::EBADF);
        }
        if old_fd == new_fd {
            return Ok(new_fd);
        }
        assert(first.fds@[new_fd as int] is Some ==> first.fds@[new_fd as int]->0.wf(&was.channels));
        let _ = self.free(files, new_fd);
        let ghost mid = *files;
        let ghost emptied = *self;
        proof {
            lemma_close_leaves_copies(&was, &mid, first, new_fd as int);
        }
        assert(self.fds@[old_fd as int] == first.fds@[old_fd as int]);
        let copy = match &self.fds[old_fd] {
            None => {
                return Err(SysErrNo::EBADF);
            },
            Some(file) => file.duplicate(files),
        };
        let ghost kept = copy;
        let _ = self.set_slot(new_fd, copy, 0);
        proof {
            assert(self.fds@ =~= first.fds@.update(new_fd as int, Some(kept)));
            assert(self.flags@ =~= first.flags@.update(
                new_fd as int,
                FileDescriptorTable::kept_flags(0),
            ));
            assert(first.closed_at(&mid, &was, new_fd as int));
            assert(first.fds@[old_fd as int]->0.copied(files, &mid));
            assert(alike(kept, first.fds@[old_fd as int]->0));
            lemma_still_alive(&emptied, files, &mid);
            assert forall|j: int|
                0 <= j < self.fds@.len() && (#[trigger] self.fds@[j]) is Some implies self.fds@[j]->0.wf(
                &files.channels,
            ) by {
                if j != new_fd {
                    assert(self.fds@[j] == emptied.fds@[j]);
                }
            }
        }
        Ok(new_fd)
    }

    /// How many files are open.
    pub fn len(&self) -> (n: usize)
        requires
            self.wf(),
        ensures
            n == taken(self.fds@),
    {
        let mut n: usize = 0;
        let mut i: usize = 0;
        assert(self.fds@.take(0) =~= Seq::empty());
        while i < self.fds.len()
            invariant
                self.wf(),
                0 <= i <= self.fds@.len(),
                n <= i,
                n == taken(self.fds@.take(i as int)),
            decreases self.fds@.len() - i,
        {
            assert(self.fds@.take(i + 1).drop_last() =~= self.fds@.take(i as int));
            if self.fds[i].is_some() {
                n = n + 1;
            }
            i = i + 1;
        }
        assert(self.fds@.take(i as int) =~= self.fds@);
        n
    }
}

impl FileDescriptorTable {
    /// What making a copy of a table counts: every open file once more.
    pub open spec fn copied(&self, files: &Files, was: &Files, n: nat) -> bool {
        &&& *files == (Files { vol: files.vol, channels: files.channels, ..*was })
        &&& files.vol.same_names(&was.vol)
        &&& files.vol.files() == opened_each(was.vol.files(), self.fds@, n)
        &&& files.channels.pipes@.dom() == was.channels.pipes@.dom()
        &&& forall|k: u128| #[trigger]
            was.channels.pipes@.contains_key(k) ==> ends_changed(
                files.channels.pipes@[k],
                was.channels.pipes@[k],
                pipe_ends(self.fds@, k, true, n) as int,
                pipe_ends(self.fds@, k, false, n) as int,
            )
        &&& files.channels.events == was.channels.events
        &&& files.channels.sockets == was.channels.sockets
        &&& files.channels.epolls == was.channels.epolls
        &&& files.channels.console == was.channels.console
        &&& files.channels.output == was.channels.output
        &&& files.channels.next_id == was.channels.next_id
        &&& files.channels.wakes == was.channels.wakes
    }

    /// Whether the first places of two tables are alike.
    pub open spec fn alike_below(&self, fds: Seq<Option<FileDescriptor>>, n: int) -> bool {
        forall|i: int|
            0 <= i < n ==> match #[trigger] fds[i] {
                Some(fd) => self.fds@[i] is Some && alike(fd, self.fds@[i]->0),
                None => self.fds@[i] is None,
            }
    }

    /// An equal second table.
    pub fn duplicate(&self, files: &mut Files) -> (r: FileDescriptorTable)
        requires
            self.wf(),
            old(files).wf(),
            self.alive(old(files)),
            old(files).room_for(MAX_FD_NUM as int),
        ensures
            r.wf(),
            final(files).wf(),
            r.alive(final(files)),
            self.alive(final(files)),
            self.alike_below(r.fds@, MAX_FD_NUM as int),
            r.flags@ == self.flags@,
            r.next_fd_hint == self.next_fd_hint,
            r.cloexec_count == self.cloexec_count,
            self.copied(final(files), old(files), MAX_FD_NUM as nat),
    {
        let ghost was = *files;
        let mut fds: Vec<Option<FileDescriptor>> = Vec::new();
        let mut flags: Vec<usize> = Vec::new();
        while fds.len() < MAX_FD_NUM
            invariant
                was == *old(files),
                self.wf(),
                files.wf(),
                self.alive(files),
                was.room_for(MAX_FD_NUM as int),
                fds@.len() == flags@.len(),
                fds@.len() <= MAX_FD_NUM,
                self.alike_below(fds@, fds@.len() as int),
                flags@ =~= self.flags@.take(fds@.len() as int),
                self.copied(files, &was, fds@.len()),
                same_channels(&files.channels, &was.channels),
                forall|i: int|
                    0 <= i < fds@.len() && (#[trigger] fds@[i]) is Some ==> fds@[i]->0.wf(
                        &files.channels,
                    ),
            decreases MAX_FD_NUM - fds@.len(),
        {
            let i: usize = fds.len();
            let ghost mid = *files;
            let ghost made = fds@;
            flags.push(self.flags[i]);
            match &self.fds[i] {
                None => {
                    fds.push(None);
                },
                Some(fd) => {
                    proof {
                        lemma_counts_below(was.vol.files(), self.fds@, i as nat);
                        lemma_ends_below(self.fds@, i as nat);
                        assert(self.fds@[i as int] is Some);
                        assert(fd.can_copy(files)) by {
                            match *fd {
                                FileDescriptor::Ext4Regular { ino, .. } => {
                                    assert(was.vol.files().refs(ino) + MAX_FD_NUM <= usize::MAX);
                                    assert(files.vol.files().refs(ino) <= was.vol.files().refs(ino)
                                        + i);
                                },
                                FileDescriptor::PipeRead { pipe, .. } => {
                                    assert(was.channels.pipes@.dom().contains(pipe as u128));
                                },
                                FileDescriptor::PipeWrite { pipe, .. } => {
                                    assert(was.channels.pipes@.dom().contains(pipe as u128));
                                },
                                _ => {},
                            }
                        }
                    }
                    let copy = fd.duplicate(files);
                    fds.push(Some(copy));
                    proof {
                        lemma_still_alive(self, files, &mid);
                        assert forall|j: int| 0 <= j < made.len() && made[j] is Some implies (
                        #[trigger] made[j])->0.wf(&files.channels) by {
                            lemma_file_alive(made[j]->0, files, &mid);
                        }
                    }
                },
            }
            proof {
                assert(files.channels.pipes@.dom() =~= was.channels.pipes@.dom());
                assert forall|k: u128| #[trigger] was.channels.pipes@.contains_key(k) implies
                    ends_changed(
                    files.channels.pipes@[k],
                    was.channels.pipes@[k],
                    pipe_ends(self.fds@, k, true, (i + 1) as nat) as int,
                    pipe_ends(self.fds@, k, false, (i + 1) as nat) as int,
                ) by {
                    assert(mid.channels.pipes@.dom().contains(k));
                    assert(mid.channels.pipes@.contains_key(k));
                }
                assert(opened_each(was.vol.files(), self.fds@, (i + 1) as nat)
                    == files.vol.files());
            }
        }
        assert(flags@ =~= self.flags@);
        let r = FileDescriptorTable {
            fds,
            flags,
            next_fd_hint: self.next_fd_hint,
            cloexec_count: self.cloexec_count,
        };
        assert forall|i: int| 0 <= i < MAX_FD_NUM implies (#[trigger] r.fds@[i] is Some
            <==> self.fds@[i] is Some) by {}
        r
    }
}

/// The counts of open files of the volume once the files at the first `n` places
/// are open once more.
pub open spec fn opened_each(m: FilesModel, fds: Seq<Option<FileDescriptor>>, n: nat) -> FilesModel
    decreases n,
{
    if n == 0 {
        m
    } else {
        let before = opened_each(m, fds, (n - 1) as nat);
        match fds[n - 1] {
            Some(FileDescriptor::Ext4Regular { ino, .. }) => before.opened(ino),
            _ => before,
        }
    }
}

/// How many of the files at the first `n` places are reading ends, or writing
/// ends, of a pipe.
pub open spec fn pipe_ends(fds: Seq<Option<FileDescriptor>>, id: u128, reader: bool, n: nat) -> nat
    decreases n,
{
    if n == 0 {
        0
    } else {
        let before = pipe_ends(fds, id, reader, (n - 1) as nat);
        match fds[n - 1] {
            Some(FileDescriptor::PipeRead { pipe, .. }) => if reader && pipe as u128 == id {
                before + 1
            } else {
                before
            },
            Some(FileDescriptor::PipeWrite { pipe, .. }) => if !reader && pipe as u128 == id {
                before + 1
            } else {
                before
            },
            _ => before,
        }
    }
}

proof fn lemma_counts_below(m: FilesModel, fds: Seq<Option<FileDescriptor>>, n: nat)
    requires
        forall|ino: u32| #[trigger] m.refs(ino) + n <= usize::MAX,
    ensures
        forall|ino: u32| #[trigger] opened_each(m, fds, n).refs(ino) <= m.refs(ino) + n,
    decreases n,
{
    if n > 0 {
        assert forall|ino: u32| #[trigger] m.refs(ino) + (n - 1) as nat <= usize::MAX by {
            assert(m.refs(ino) + n <= usize::MAX);
        }
        lemma_counts_below(m, fds, (n - 1) as nat);
        let before = opened_each(m, fds, (n - 1) as nat);
        assert forall|ino: u32| #[trigger] opened_each(m, fds, n).refs(ino) <= m.refs(ino) + n by {
            assert(before.refs(ino) <= m.refs(ino) + (n - 1) as nat);
            assert(m.refs(ino) + n <= usize::MAX);
        }
    }
}

proof fn lemma_ends_below(fds: Seq<Option<FileDescriptor>>, n: nat)
    ensures
        forall|k: u128, reader: bool| #[trigger] pipe_ends(fds, k, reader, n) <= n,
    decreases n,
{
    if n > 0 {
        lemma_ends_below(fds, (n - 1) as nat);
        assert forall|k: u128, reader: bool| #[trigger] pipe_ends(fds, k, reader, n) <= n by {
            assert(pipe_ends(fds, k, reader, (n - 1) as nat) <= n - 1);
        }
    }
}

impl Files {
    /// No count of open files is at its end.
    pub open spec fn copies_left(&self) -> bool {
        &&& forall|ino: u32| #[trigger] self.vol.files().refs(ino) < usize::MAX
        &&& forall|k: u128| #[trigger]
            self.channels.pipes@.contains_key(k) ==> self.channels.pipes@[k].readers < usize::MAX
                && self.channels.pipes@[k].writers < usize::MAX
    }

    /// So many more open files can be counted.
    pub open spec fn room_for(&self, n: int) -> bool {
        &&& forall|ino: u32| #[trigger] self.vol.files().refs(ino) + n <= usize::MAX
        &&& forall|k: u128| #[trigger]
            self.channels.pipes@.contains_key(k) ==> self.channels.pipes@[k].readers + n
                <= usize::MAX && self.channels.pipes@[k].writers + n <= usize::MAX
    }
}

/// The files at the first `n` places that are closed when another program is
/// started.
pub open spec fn marked(fds: Seq<Option<FileDescriptor>>, flags: Seq<usize>, n: nat) -> Seq<
    FileDescriptor,
>
    decreases n,
{
    if n == 0 {
        Seq::empty()
    } else {
        let before = marked(fds, flags, (n - 1) as nat);
        if fds[n - 1] is Some && flags[n - 1] == FD_CLOEXEC {
            before.push(fds[n - 1]->0)
        } else {
            before
        }
    }
}

proof fn lemma_nothing_marked(fds: Seq<Option<FileDescriptor>>, flags: Seq<usize>, n: nat)
    requires
        n <= flags.len(),
        forall|i: int| 0 <= i < flags.len() ==> #[trigger] flags[i] != FD_CLOEXEC,
    ensures
        marked(fds, flags, n) == Seq::<FileDescriptor>::empty(),
    decreases n,
{
    if n > 0 {
        lemma_nothing_marked(fds, flags, (n - 1) as nat);
    }
}

/// The files at the first `n` places.
pub open spec fn opened(fds: Seq<Option<FileDescriptor>>, n: nat) -> Seq<FileDescriptor>
    decreases n,
{
    if n == 0 {
        Seq::empty()
    } else {
        let before = opened(fds, (n - 1) as nat);
        if fds[n - 1] is Some {
            before.push(fds[n - 1]->0)
        } else {
            before
        }
    }
}

proof fn lemma_file_alive(fd: FileDescriptor, files: &Files, was: &Files)
    requires
        fd.wf(&was.channels),
        same_channels(&files.channels, &was.channels),
    ensures
        fd.wf(&files.channels),
{
    match fd {
        FileDescriptor::PipeRead { pipe, .. } => {
            assert(files.channels.pipes@.dom().contains(pipe as u128));
        },
        FileDescriptor::PipeWrite { pipe, .. } => {
            assert(files.channels.pipes@.dom().contains(pipe as u128));
        },
        FileDescriptor::Socket { socket } => {
            assert(files.channels.sockets@.dom().contains(socket as u128));
        },
        FileDescriptor::EventFd { event } => {
            assert(files.channels.events@.dom().contains(event as u128));
        },
        FileDescriptor::Epoll { epoll } => {
            assert(files.channels.epolls@.dom().contains(epoll as u128));
        },
        _ => {},
    }
}

proof fn lemma_still_alive(table: &FileDescriptorTable, files: &Files, was: &Files)
    requires
        table.alive(was),
        same_channels(&files.channels, &was.channels),
    ensures
        table.alive(files),
{
    assert forall|i: int|
        0 <= i < table.fds@.len() && (#[trigger] table.fds@[i]) is Some implies table.fds@[i]->0.wf(
        &files.channels,
    ) by {
        lemma_file_alive(table.fds@[i]->0, files, was);
    }
}

proof fn lemma_close_leaves_copies(
    was: &Files,
    files: &Files,
    table: FileDescriptorTable,
    index: int,
)
    requires
        was.copies_left(),
        table.closed_at(files, was, index),
        table.fds@[index] is Some ==> table.fds@[index]->0.wf(&was.channels),
    ensures
        files.copies_left(),
{
    assert forall|ino: u32| #[trigger] files.vol.files().refs(ino) < usize::MAX by {
        assert(was.vol.files().refs(ino) < usize::MAX);
    }
    assert forall|k: u128| #[trigger] files.channels.pipes@.contains_key(k) implies
        files.channels.pipes@[k].readers < usize::MAX && files.channels.pipes@[k].writers
        < usize::MAX by {
        assert(was.channels.pipes@.contains_key(k));
    }
}

/// Of two files that are opened one after the other, with nothing closed in
/// between, the second gets the greater number.
pub proof fn numbers_grow(
    a: &FileDescriptorTable,
    b: &FileDescriptorTable,
    fd: FileDescriptor,
    i: int,
    j: int,
)
    requires
        a.first_free(0, MAX_FD_NUM as int, i),
        a.wf(),
        b.placed(a, i, fd, 0),
        b.first_free(0, MAX_FD_NUM as int, j),
    ensures
        i < j,
{
    if j <= i {
        assert(b.fds@[j] is None);
        if j < i {
            assert(a.fds@[j] is Some);
        }
    }
}

impl Default for FileDescriptorTable {
    fn default() -> (r: Self)
        ensures
            r.wf(),
            r.fds@[0] == Some(FileDescriptor::Stdin),
            r.fds@[1] == Some(FileDescriptor::Stdout),
            r.fds@[2] == Some(FileDescriptor::Stderr),
            forall|i: int| 3 <= i < MAX_FD_NUM ==> (#[trigger] r.fds@[i]) is None,
            forall|i: int| 0 <= i < MAX_FD_NUM ==> #[trigger] r.flags@[i] == 0,
    {
        FileDescriptorTable::new()
    }
}

} // verus!
