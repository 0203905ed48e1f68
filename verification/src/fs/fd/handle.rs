//! Open files of the in-memory file system.
use vstd::prelude::*;

use crate::bytes::{fill_zero, resized, zeros};
use crate::errno::SysErrNo;
use crate::fs::content::{read_into, read_len, written, MemFileContent, MAX_FILE_OFFSET};
use crate::fs::ext4::data::checked_file_end;
use crate::fs::memfs::model::{BackingModel, MemFsModel};
use crate::fs::memfs::store::MemFileSystem;
use crate::fs::node::{FileTimes, MemNodeMetadata};
use crate::fs::path::normalized;
use crate::task::{Caller, Timestamp};
use crate::text::str_eq;

verus! {

/// An open file of the in-memory file system. It keeps its contents when its
/// name goes.
pub struct MemHandle {
    pub name: String,
    pub content: MemFileContent,
    pub times: FileTimes,
    pub offset: usize,
    pub readable: bool,
    pub writable: bool,
    pub append: bool,
    pub linked: bool,
    pub node: Option<MemNodeMetadata>,
}

/// An open file, as a mathematical value.
#[verifier::ext_equal]
pub struct HandleModel {
    pub name: Seq<char>,
    pub content: Seq<u8>,
    pub times: FileTimes,
    pub offset: nat,
    pub readable: bool,
    pub writable: bool,
    pub append: bool,
    pub linked: bool,
    pub node: Option<MemNodeMetadata>,
}

impl View for MemHandle {
    type V = HandleModel;

    open spec fn view(&self) -> HandleModel {
        HandleModel {
            name: self.name@,
            content: self.content@,
            times: self.times,
            offset: self.offset as nat,
            readable: self.readable,
            writable: self.writable,
            append: self.append,
            linked: self.linked,
            node: self.node,
        }
    }
}

/// Whether a path names the device that swallows all.
pub open spec fn names_null(path: Seq<char>) -> bool {
    path == "/dev/null"@ || path == "/glibc/dev/null"@ || path == "/musl/dev/null"@
}

/// Whether a path names the device that gives zeros.
pub open spec fn names_zero(path: Seq<char>) -> bool {
    path == "/dev/zero"@ || path == "/glibc/dev/zero"@ || path == "/musl/dev/zero"@
}

/// Whether a path names the device that swallows all.
pub fn is_dev_null_path(path: &str) -> (r: bool)
    ensures
        r == names_null(path@),
{
    str_eq(path, "/dev/null") || str_eq(path, "/glibc/dev/null") || str_eq(path, "/musl/dev/null")
}

/// Whether a path names the device that gives zeros.
pub fn is_dev_zero_path(path: &str) -> (r: bool)
    ensures
        r == names_zero(path@),
{
    str_eq(path, "/dev/zero") || str_eq(path, "/glibc/dev/zero") || str_eq(path, "/musl/dev/zero")
}

impl HandleModel {
    /// Whether the file stands for a device.
    pub open spec fn is_device(self) -> bool {
        names_null(self.name) || names_zero(self.name)
    }

    /// The file as it is now under its name.
    pub open spec fn refreshed(self, mem: MemFsModel) -> HandleModel {
        if self.is_device() || !self.linked {
            self
        } else if mem.file_index(normalized(self.name)) is Some {
            let b = mem.backing_of(normalized(self.name));
            HandleModel { content: b.content, times: b.times, ..self }
        } else {
            HandleModel { linked: false, ..self }
        }
    }

    /// The file system with the contents of the file stored under its name, if
    /// it still has one.
    pub open spec fn stored(self, mem: MemFsModel) -> MemFsModel {
        if self.linked && mem.file_index(normalized(self.name)) is Some {
            mem.with_backing(
                normalized(self.name),
                BackingModel { content: self.content, times: self.times },
            )
        } else {
            mem
        }
    }

    /// What a read at an offset does to the file, the result, and the buffer.
    pub open spec fn read_at_spec(self, mem: MemFsModel, offset: nat, buf: Seq<u8>) -> (
        HandleModel,
        Result<usize, SysErrNo>,
        Seq<u8>,
    ) {
        if !self.readable {
            (self, Err(SysErrNo::EBADF), buf)
        } else if names_null(self.name) {
            (self, Ok(0), buf)
        } else if names_zero(self.name) {
            (self, Ok(buf.len() as usize), zeros(buf.len()))
        } else {
            let now = self.refreshed(mem);
            (
                now,
                Ok(read_len(now.content.len(), offset, buf.len()) as usize),
                read_into(now.content, offset, buf),
            )
        }
    }

    /// What a read does to the file, the result, and the buffer.
    pub open spec fn read_spec(self, mem: MemFsModel, buf: Seq<u8>) -> (
        HandleModel,
        Result<usize, SysErrNo>,
        Seq<u8>,
    ) {
        let (now, r, after) = self.read_at_spec(mem, self.offset, buf);
        match r {
            Ok(n) => (
                HandleModel {
                    offset: if self.offset + n > usize::MAX {
                        usize::MAX as nat
                    } else {
                        self.offset + n as nat
                    },
                    ..now
                },
                r,
                after,
            ),
            Err(_) => (now, r, after),
        }
    }

    /// What a write at an offset does to the file and the file system, and the
    /// result.
    pub open spec fn write_at_spec(
        self,
        mem: MemFsModel,
        now: Timestamp,
        offset: nat,
        buf: Seq<u8>,
    ) -> (HandleModel, MemFsModel, Result<usize, SysErrNo>) {
        if !self.writable {
            (self, mem, Err(SysErrNo::EBADF))
        } else if self.is_device() {
            (self, mem, Ok(buf.len() as usize))
        } else if buf.len() == 0 {
            (self, mem, Ok(0))
        } else {
            let fresh = self.refreshed(mem);
            if offset + buf.len() > MAX_FILE_OFFSET {
                (fresh, mem, Err(SysErrNo::EFBIG))
            } else {
                let after = HandleModel {
                    content: written(fresh.content, offset, buf),
                    times: fresh.times.modified(now),
                    ..fresh
                };
                (after, after.stored(mem), Ok(buf.len() as usize))
            }
        }
    }

    /// What a write does to the file and the file system, and the result.
    pub open spec fn write_spec(self, mem: MemFsModel, now: Timestamp, buf: Seq<u8>) -> (
        HandleModel,
        MemFsModel,
        Result<usize, SysErrNo>,
    ) {
        if !self.writable || self.is_device() || buf.len() == 0 {
            self.write_at_spec(mem, now, 0, buf)
        } else {
            let at = if self.append {
                self.refreshed(mem).content.len()
            } else {
                self.offset
            };
            let (after, stored, r) = self.write_at_spec(mem, now, at, buf);
            (
                HandleModel {
                    offset: match r {
                        Ok(n) => at + n as nat,
                        Err(_) => at,
                    },
                    ..after
                },
                stored,
                r,
            )
        }
    }

    /// What setting the length does to the file and the file system, and the
    /// result.
    pub open spec fn truncate_spec(
        self,
        mem: MemFsModel,
        now: Timestamp,
        len: nat,
        readonly: SysErrNo,
    ) -> (HandleModel, MemFsModel, Result<(), SysErrNo>) {
        if !self.writable {
            (self, mem, Err(readonly))
        } else if self.is_device() {
            (self, mem, Ok(()))
        } else {
            let fresh = self.refreshed(mem);
            let after = HandleModel {
                content: resized(fresh.content, len),
                times: fresh.times.modified(now),
                ..fresh
            };
            (after, after.stored(mem), Ok(()))
        }
    }

    /// The length of the file.
    pub open spec fn size_spec(self, mem: MemFsModel) -> nat {
        if self.is_device() {
            0
        } else {
            self.refreshed(mem).content.len()
        }
    }
}

impl MemHandle {
    /// The contents are in order.
    pub open spec fn wf(&self) -> bool {
        self.content.wf()
    }

    /// Takes the contents from under the name, as long as there is one. The
    /// result is whether what is written goes there too.
    pub fn refresh_mem_file(&mut self, mem: &MemFileSystem) -> (live: bool)
        requires
            old(self).wf(),
            mem.wf(),
        ensures
            final(self).wf(),
            final(self)@ == old(self)@.refreshed(mem@),
            live == (old(self)@.is_device() || final(self).linked),
    {
        if is_dev_null_path(self.name.as_str()) || is_dev_zero_path(self.name.as_str()) {
            return true;
        }
        if !self.linked {
            return false;
        }
        match mem.get_file(self.name.as_str()) {
            Some(file) => {
                let (content, times) = file.snapshot(mem);
                self.content = content;
                self.times = times;
                true
            },
            None => {
                self.linked = false;
                false
            },
        }
    }

    fn store(&self, mem: &mut MemFileSystem)
        requires
            self.wf(),
            old(mem).wf(),
        ensures
            final(mem).wf(),
            final(mem)@ == self@.stored(old(mem)@),
    {
        if self.linked {
            let content = self.content.clone();
            let _ = mem.write_file_content(self.name.as_str(), content, self.times);
        }
    }

    /// Reads at an offset.
    pub fn read_at(&mut self, mem: &MemFileSystem, offset: usize, buf: &mut [u8]) -> (r: Result<
        usize,
        SysErrNo,
    >)
        requires
            old(self).wf(),
            mem.wf(),
        ensures
            final(self).wf(),
            (final(self)@, r, final(buf)@) == old(self)@.read_at_spec(
                mem@,
                offset as nat,
                old(buf)@,
            ),
    {
        if !self.readable {
            return Err(SysErrNo::EBADF);
        }
        if is_dev_null_path(self.name.as_str()) {
            return Ok(0);
        }
        let n: usize = buf.len();
        if is_dev_zero_path(self.name.as_str()) {
            fill_zero(buf, 0, n);
            assert(buf@ =~= zeros(n as nat));
            return Ok(n);
        }
        let _ = self.refresh_mem_file(mem);
        Ok(self.content.read_at(offset, buf))
    }

    /// Reads on.
    pub fn read(&mut self, mem: &MemFileSystem, buf: &mut [u8]) -> (r: Result<usize, SysErrNo>)
        requires
            old(self).wf(),
            mem.wf(),
        ensures
            final(self).wf(),
            (final(self)@, r, final(buf)@) == old(self)@.read_spec(mem@, old(buf)@),
    {
        let at: usize = self.offset;
        match self.read_at(mem, at, buf) {
            Ok(n) => {
                self.offset = self.offset.saturating_add(n);
                Ok(n)
            },
            Err(e) => Err(e),
        }
    }

    /// Writes at an offset.
    pub fn write_at(&mut self, mem: &mut MemFileSystem, caller: &Caller, offset: usize, buf: &[u8]) -> (r:
        Result<usize, SysErrNo>)
        requires
            old(self).wf(),
            old(mem).wf(),
        ensures
            final(self).wf(),
            final(mem).wf(),
            (final(self)@, final(mem)@, r) == old(self)@.write_at_spec(
                old(mem)@,
                caller.now,
                offset as nat,
                buf@,
            ),
    {
        if !self.writable {
            return Err(SysErrNo::EBADF);
        }
        if is_dev_null_path(self.name.as_str()) || is_dev_zero_path(self.name.as_str()) {
            return Ok(buf.len());
        }
        if buf.len() == 0 {
            return Ok(0);
        }
        let _ = self.refresh_mem_file(mem);
        match checked_file_end(offset, buf.len()) {
            Ok(_) => {},
            Err(e) => {
                return Err(e);
            },
        }
        let _ = self.content.write_at(offset, buf);
        self.times.touch_modified(caller.now);
        self.store(mem);
        Ok(buf.len())
    }

    /// Writes on: at the end, if so opened.
    pub fn write(&mut self, mem: &mut MemFileSystem, caller: &Caller, buf: &[u8]) -> (r: Result<
        usize,
        SysErrNo,
    >)
        requires
            old(self).wf(),
            old(mem).wf(),
        ensures
            final(self).wf(),
            final(mem).wf(),
            (final(self)@, final(mem)@, r) == old(self)@.write_spec(old(mem)@, caller.now, buf@),
    {
        if !self.writable {
            return Err(SysErrNo::EBADF);
        }
        if is_dev_null_path(self.name.as_str()) || is_dev_zero_path(self.name.as_str()) {
            return Ok(buf.len());
        }
        if buf.len() == 0 {
            return Ok(0);
        }
        let ghost first = self@;
        if self.append {
            let _ = self.refresh_mem_file(mem);
            self.offset = self.content.len();
        }
        let at: usize = self.offset;
        let ghost mid = self@;
        assert(mid.refreshed(mem@) =~= (HandleModel { offset: at as nat, ..first.refreshed(mem@) }));
        match self.write_at(mem, caller, at, buf) {
            Ok(n) => {
                self.offset = at + n;
                Ok(n)
            },
            Err(e) => Err(e),
        }
    }

    /// Sets the length; `readonly` is the error for a file not open for writing.
    pub fn truncate_with_readonly_errno(
        &mut self,
        mem: &mut MemFileSystem,
        caller: &Caller,
        new_len: usize,
        readonly: SysErrNo,
    ) -> (r: Result<(), SysErrNo>)
        requires
            old(self).wf(),
            old(mem).wf(),
            new_len <= MAX_FILE_OFFSET,
        ensures
            final(self).wf(),
            final(mem).wf(),
            (final(self)@, final(mem)@, r) == old(self)@.truncate_spec(
                old(mem)@,
                caller.now,
                new_len as nat,
                readonly,
            ),
    {
        if !self.writable {
            return Err(readonly);
        }
        if is_dev_null_path(self.name.as_str()) || is_dev_zero_path(self.name.as_str()) {
            return Ok(());
        }
        let _ = self.refresh_mem_file(mem);
        self.content.resize(new_len);
        self.times.touch_modified(caller.now);
        self.store(mem);
        Ok(())
    }

    /// The length of the file.
    pub fn size(&self, mem: &MemFileSystem) -> (n: usize)
        requires
            mem.wf(),
        ensures
            n == self@.size_spec(mem@),
    {
        if is_dev_null_path(self.name.as_str()) || is_dev_zero_path(self.name.as_str()) {
            return 0;
        }
        if !self.linked {
            return self.content.len();
        }
        match mem.get_file(self.name.as_str()) {
            Some(file) => file.size(mem),
            None => self.content.len(),
        }
    }
}

/// What was written at an offset of a file that has a name is read there by
/// every open file of that name.
pub proof fn handles_share_contents(
    a: HandleModel,
    b: HandleModel,
    mem: MemFsModel,
    now: Timestamp,
    offset: nat,
    data: Seq<u8>,
    buf: Seq<u8>,
)
    requires
        a.name == b.name,
        a.linked && b.linked,
        !a.is_device(),
        a.writable && b.readable,
        data.len() > 0,
        buf.len() == data.len(),
        offset + data.len() <= MAX_FILE_OFFSET,
        mem.file_index(normalized(a.name)) is Some,
        0 <= mem.files[mem.file_index(normalized(a.name))->0].backing < mem.backings.len(),
    ensures
        ({
            let (_, after, w) = a.write_at_spec(mem, now, offset, data);
            let (_, r, got) = b.read_at_spec(after, offset, buf);
            w is Ok && r == Ok::<usize, SysErrNo>(data.len() as usize) && got == data
        }),
{
    let (a2, after, w) = a.write_at_spec(mem, now, offset, data);
    let n = normalized(a.name);
    assert(after.files =~= mem.files);
    assert(after.file_index(n) == mem.file_index(n)) by {
        assert forall|i: int| after.first_file(n, i) == mem.first_file(n, i) by {}
    }
    let c = a2.content;
    assert(c.subrange(offset as int, (offset + data.len()) as int) =~= data);
    let (_, r, got) = b.read_at_spec(after, offset, buf);
    assert(b.refreshed(after).content == c);
    assert(got =~= data);
}

} // verus!
