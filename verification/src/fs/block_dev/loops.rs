//! Loop devices: files that are read and written as devices.
use vstd::prelude::*;

use crate::errno::SysErrNo;
use crate::fs::block_dev::registry::{
    BlockDevices, LoopBacking, LoopDeviceState, LOOP_DEVICE_COUNT,
};
use crate::fs::content::{read_into, read_len};
use crate::fs::ext4::access::ReadFault;
use crate::fs::ext4::data::{as_sys_result, WriteFault};
use crate::fs::ext4::mount::Ext4Volume;
use crate::fs::ext4::volume::Fault;
use crate::fs::memfs::model::MemFsModel;
use crate::fs::memfs::store::MemFileSystem;
use crate::fs::path::normalized;
use crate::task::Caller;

verus! {

/// The loop devices once one of them shows a file.
pub open spec fn attached(loops: Seq<LoopDeviceState>, index: usize, backing: LoopBacking) -> (
    Seq<LoopDeviceState>,
    Result<(), SysErrNo>,
) {
    if index >= loops.len() {
        (loops, Err(SysErrNo::ENODEV))
    } else if loops[index as int].backing is Some {
        (loops, Err(SysErrNo::EBUSY))
    } else {
        (
            loops.update(index as int, LoopDeviceState { backing: Some(backing), offset: 0 }),
            Ok(()),
        )
    }
}

/// The loop devices once one of them shows nothing, and what it showed.
pub open spec fn detached(loops: Seq<LoopDeviceState>, index: usize) -> (
    Seq<LoopDeviceState>,
    Result<LoopBacking, SysErrNo>,
) {
    if index >= loops.len() {
        (loops, Err(SysErrNo::ENODEV))
    } else {
        match loops[index as int].backing {
            None => (loops, Err(SysErrNo::ENXIO)),
            Some(backing) => (
                loops.update(index as int, LoopDeviceState { backing: None, offset: 0 }),
                Ok(backing),
            ),
        }
    }
}

/// Only the four loop devices there are show anything. One that shows a file
/// takes no other; once it shows nothing it cannot be detached again and takes
/// any file, which is then what it showed. The other devices keep what they show.
pub proof fn loop_devices_take_turns(b: &BlockDevices, index: usize, file: LoopBacking)
    requires
        b.wf(),
    ensures
        ({
            let on = attached(b.loops@, index, file);
            let off = detached(b.loops@, index);
            &&& index >= LOOP_DEVICE_COUNT ==> on == (
                b.loops@,
                Err::<(), SysErrNo>(SysErrNo::ENODEV),
            ) && off == (b.loops@, Err::<LoopBacking, SysErrNo>(SysErrNo::ENODEV))
            &&& index < LOOP_DEVICE_COUNT ==> (on.1 is Ok <==> off.1 == Err::<
                LoopBacking,
                SysErrNo,
            >(SysErrNo::ENXIO)) && (off.1 is Ok <==> on.1 == Err::<(), SysErrNo>(SysErrNo::EBUSY))
            &&& off.1 is Ok ==> detached(off.0, index).1 == Err::<LoopBacking, SysErrNo>(
                SysErrNo::ENXIO,
            ) && attached(off.0, index, file).1 is Ok
            &&& on.1 is Ok ==> detached(on.0, index).1 == Ok::<LoopBacking, SysErrNo>(file)
                && attached(on.0, index, file).1 == Err::<(), SysErrNo>(SysErrNo::EBUSY)
            &&& forall|j: int|
                0 <= j < LOOP_DEVICE_COUNT && j != index ==> #[trigger] on.0[j] == b.loops@[j]
                    && off.0[j] == b.loops@[j]
        }),
{
}

impl BlockDevices {
    /// Lets a loop device show a file; one of the volume counts as open.
    pub fn attach_loop(&mut self, vol: &mut Ext4Volume, index: usize, backing: LoopBacking) -> (r:
        Result<(), SysErrNo>)
        requires
            old(self).wf(),
            old(vol).wf(),
            match backing {
                LoopBacking::Ext4Regular { ino } => old(vol).files().refs(ino) < usize::MAX,
                LoopBacking::MemFile { path: _ } => true,
            },
        ensures
            final(self).wf(),
            final(vol).wf(),
            final(self).devices == old(self).devices,
            final(self).root_source == old(self).root_source,
            final(vol).same_names(old(vol)),
            (final(self).loops@, r) == attached(old(self).loops@, index, backing),
            r is Err ==> *final(vol) == *old(vol),
            r is Ok ==> final(vol).files() == (match backing {
                LoopBacking::Ext4Regular { ino } => old(vol).files().opened(ino),
                LoopBacking::MemFile { path: _ } => old(vol).files(),
            }),
    {
        if index >= self.loops.len() {
            return Err(SysErrNo::ENODEV);
        }
        if self.loops[index].backing.is_some() {
            return Err(SysErrNo::EBUSY);
        }
        match &backing {
            LoopBacking::Ext4Regular { ino } => {
                vol.open_regular_ino(*ino);
            },
            LoopBacking::MemFile { path: _ } => {},
        }
        self.loops.set(index, LoopDeviceState { backing: Some(backing), offset: 0 });
        Ok(())
    }

    /// Lets a loop device show nothing. The result is whether the file that it
    /// showed has to be deleted.
    pub fn detach_loop(&mut self, vol: &mut Ext4Volume, index: usize) -> (r: Result<bool, SysErrNo>)
        requires
            old(self).wf(),
            old(vol).wf(),
        ensures
            final(self).wf(),
            final(vol).wf(),
            final(self).devices == old(self).devices,
            final(self).root_source == old(self).root_source,
            final(vol).same_names(old(vol)),
            final(self).loops@ == detached(old(self).loops@, index).0,
            match detached(old(self).loops@, index).1 {
                Err(e) => r == Err::<bool, SysErrNo>(e) && *final(vol) == *old(vol),
                Ok(backing) => r is Ok && (final(vol).files(), r->Ok_0) == (match backing {
                    LoopBacking::Ext4Regular { ino } => old(vol).files().closed_once(ino),
                    LoopBacking::MemFile { path: _ } => (old(vol).files(), false),
                }),
            },
    {
        if index >= self.loops.len() {
            return Err(SysErrNo::ENODEV);
        }
        let delete = match &self.loops[index].backing {
            None => {
                return Err(SysErrNo::ENXIO);
            },
            Some(LoopBacking::Ext4Regular { ino }) => vol.close_regular_ino(*ino),
            Some(LoopBacking::MemFile { path: _ }) => false,
        };
        self.loops.set(index, LoopDeviceState { backing: None, offset: 0 });
        Ok(delete)
    }

    /// The size of a loop device.
    pub open spec fn loop_size_spec(&self, mem: &MemFileSystem, vol: &Ext4Volume, index: usize) -> Result<
        usize,
        Fault,
    > {
        match self.shown(index) {
            Err(e) => Err(Fault::Sys(e)),
            Ok(LoopBacking::MemFile { path }) => match mem@.file_index(normalized(path@)) {
                None => Err(Fault::Sys(SysErrNo::ENOENT)),
                Some(_) => Ok(mem@.backing_of(normalized(path@)).content.len() as usize),
            },
            Ok(LoopBacking::Ext4Regular { ino }) => vol.size_spec(ino),
        }
    }

    /// The size of a loop device.
    pub fn loop_size(&self, mem: &MemFileSystem, vol: &Ext4Volume, index: usize) -> (r: Result<
        usize,
        Fault,
    >)
        requires
            self.wf(),
            mem.wf(),
            vol.wf(),
        ensures
            r == self.loop_size_spec(mem, vol, index),
    {
        match self.loop_backing(index) {
            Err(e) => Err(Fault::Sys(e)),
            Ok(LoopBacking::MemFile { path }) => match mem.get_file(path.as_str()) {
                Some(file) => Ok(file.size(mem)),
                None => Err(Fault::Sys(SysErrNo::ENOENT)),
            },
            Ok(LoopBacking::Ext4Regular { ino }) => vol.regular_file_size(*ino),
        }
    }

    /// What a read from a loop device does.
    pub open spec fn loop_read_done(
        &self,
        mem: MemFsModel,
        vol: &Ext4Volume,
        was: &Ext4Volume,
        index: usize,
        offset: usize,
        before: Seq<u8>,
        after: Seq<u8>,
        disk: Seq<u8>,
        r: Result<usize, ReadFault>,
    ) -> bool {
        match self.shown(index) {
            Err(e) => r == Err::<usize, ReadFault>(ReadFault::Sys(e)) && *vol == *was && after
                == before,
            Ok(LoopBacking::MemFile { path }) => *vol == *was && match mem.file_index(
                normalized(path@),
            ) {
                None => r == Err::<usize, ReadFault>(ReadFault::Sys(SysErrNo::ENOENT)) && after
                    == before,
                Some(_) => {
                    let content = mem.backing_of(normalized(path@)).content;
                    &&& r is Ok
                    &&& r->Ok_0 == read_len(content.len(), offset as nat, before.len())
                    &&& after == read_into(content, offset as nat, before)
                },
            },
            Ok(LoopBacking::Ext4Regular { ino }) => vol.read_done(
                was,
                ino,
                offset,
                before,
                after,
                disk,
                r,
            ),
        }
    }

    /// What a write to a loop device does.
    pub open spec fn loop_write_done(
        &self,
        mem: MemFsModel,
        mem_was: MemFsModel,
        vol: &Ext4Volume,
        was: &Ext4Volume,
        caller: &Caller,
        index: usize,
        offset: usize,
        data: Seq<u8>,
        disk: Seq<u8>,
        now: u32,
        r: Result<usize, WriteFault>,
    ) -> bool {
        match self.shown(index) {
            Err(e) => r == Err::<usize, WriteFault>(WriteFault::Sys(e)) && mem == mem_was && *vol
                == *was,
            Ok(LoopBacking::MemFile { path }) => {
                &&& *vol == *was
                &&& r != Err::<usize, WriteFault>(WriteFault::NeedFile)
                &&& (mem, as_sys_result(r)) == mem_was.write_file_at(
                    caller,
                    path@,
                    offset as nat,
                    data,
                )
            },
            Ok(LoopBacking::Ext4Regular { ino }) => mem == mem_was && vol.wrote_at(
                was,
                ino,
                offset,
                data,
                disk,
                now,
                r,
            ),
        }
    }

    /// Reads from a loop device. `disk` is what the volume's disk holds of the
    /// file from the offset on.
    pub fn loop_read_at(
        &self,
        mem: &MemFileSystem,
        vol: &mut Ext4Volume,
        index: usize,
        offset: usize,
        buf: &mut [u8],
        disk: &[u8],
    ) -> (r: Result<usize, ReadFault>)
        requires
            self.wf(),
            mem.wf(),
            old(vol).wf(),
        ensures
            final(vol).wf(),
            final(buf)@.len() == old(buf)@.len(),
            self.loop_read_done(
                mem@,
                final(vol),
                old(vol),
                index,
                offset,
                old(buf)@,
                final(buf)@,
                disk@,
                r,
            ),
    {
        match self.loop_backing(index) {
            Err(e) => Err(ReadFault::Sys(e)),
            Ok(LoopBacking::MemFile { path }) => match mem.read_file_at(path.as_str(), offset, buf) {
                Ok(n) => Ok(n),
                Err(e) => Err(ReadFault::Sys(e)),
            },
            Ok(LoopBacking::Ext4Regular { ino }) => vol.ext4_read_at(*ino, offset, buf, disk),
        }
    }

    /// Writes to a loop device. `disk` is what the volume's disk holds of the
    /// file from the start of the first page on.
    pub fn loop_write_at(
        &self,
        mem: &mut MemFileSystem,
        vol: &mut Ext4Volume,
        caller: &Caller,
        index: usize,
        offset: usize,
        buf: &[u8],
        disk: &[u8],
        now: u32,
    ) -> (r: Result<usize, WriteFault>)
        requires
            self.wf(),
            old(mem).wf(),
            old(vol).wf(),
        ensures
            final(mem).wf(),
            final(vol).wf(),
            self.loop_write_done(
                final(mem)@,
                old(mem)@,
                final(vol),
                old(vol),
                caller,
                index,
                offset,
                buf@,
                disk@,
                now,
                r,
            ),
    {
        match self.loop_backing(index) {
            Err(e) => Err(WriteFault::Sys(e)),
            Ok(LoopBacking::MemFile { path }) => match mem.write_file_at(
                caller,
                path.as_str(),
                offset,
                buf,
            ) {
                Ok(n) => Ok(n),
                Err(e) => Err(WriteFault::Sys(e)),
            },
            Ok(LoopBacking::Ext4Regular { ino }) => vol.ext4_write_at(*ino, offset, buf, disk, now),
        }
    }
}

} // verus!
