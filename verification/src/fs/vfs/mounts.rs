//! Mounting and unmounting, and the files that tell what is mounted.
use vstd::prelude::*;
use vstd::utf8::encode_utf8;

use crate::bytes::append_bytes;
use crate::errno::SysErrNo;
use crate::fs::block_dev::device::{BlockRange, RawBlockDevice};
use crate::fs::content::{MemFileContent, MAX_FILE_OFFSET};
use crate::fs::ext4::volume::Fault;
use crate::fs::fd::descriptor::{Files, VfsNodeKind};
use crate::fs::memfs::model::{BackingModel, MemFsModel};
use crate::fs::memfs::store::MemFileSystem;
use crate::fs::node::FileTimes;
use crate::fs::path::{local_device_path, local_part, normalize_path, normalized};
use crate::fs::vfat::{volume_of, VfatVolume};
use crate::fs::vfs::tree::{MountBackend, MountEntry, Vfs};
use crate::fs::vfs::types::{S_IFBLK, S_IFMT};
use crate::task::{Caller, Timestamp};
use crate::text::{concat, concat3, str_eq, texts};

verus! {

/// The flags that can be given when something is unmounted.
pub const UMOUNT_FLAGS: usize = 15;

/// What the table of mounts says of one.
pub open spec fn record_line(e: MountEntry) -> Seq<char> {
    e.source@ + " "@ + e.logical_target@ + " "@ + e.fstype@ + " rw 0 0\n"@
}

/// The table of mounts as a text.
pub open spec fn table_text(mounts: Seq<MountEntry>) -> Seq<char>
    decreases mounts.len(),
{
    if mounts.len() == 0 {
        Seq::empty()
    } else {
        table_text(mounts.drop_last()) + record_line(mounts.last())
    }
}

fn mount_record_line(entry: &MountEntry) -> (r: String)
    ensures
        r@ == record_line(*entry),
{
    let front = concat3(entry.source.as_str(), " ", entry.logical_target.as_str());
    let middle = concat3(front.as_str(), " ", entry.fstype.as_str());
    concat(middle.as_str(), " rw 0 0\n")
}

fn mount_table_text(mounts: &Vec<MountEntry>) -> (r: String)
    ensures
        r@ == table_text(mounts@),
{
    let mut text = String::new();
    let mut i: usize = 0;
    assert(mounts@.take(0) =~= Seq::<MountEntry>::empty());
    while i < mounts.len()
        invariant
            0 <= i <= mounts@.len(),
            text@ == table_text(mounts@.take(i as int)),
        decreases mounts@.len() - i,
    {
        assert(mounts@.take(i + 1).drop_last() =~= mounts@.take(i as int));
        let line = mount_record_line(&mounts[i]);
        text = concat(text.as_str(), line.as_str());
        i = i + 1;
    }
    assert(mounts@.take(i as int) =~= mounts@);
    text
}

impl MemFsModel {
    /// The same system in which a file, new or not, holds some bytes. More than
    /// a file can hold are not written.
    pub open spec fn with_contents(self, caller: &Caller, path: Seq<char>, data: Seq<u8>) -> MemFsModel {
        if data.len() > MAX_FILE_OFFSET {
            self
        } else if self.file_index(normalized(path)) is Some {
            self.with_backing(
                normalized(path),
                BackingModel { content: data, times: FileTimes::at(caller.now) },
            )
        } else {
            self.add_file(caller, path, data)
        }
    }

    /// The same system in which the files of a tree that tell what is mounted
    /// hold some bytes.
    pub open spec fn with_mount_files(self, caller: &Caller, root: Seq<char>, data: Seq<u8>) -> MemFsModel {
        self.with_contents(caller, root + "/proc/mounts"@, data).with_contents(
            caller,
            root + "/etc/mtab"@,
            data,
        )
    }

    /// The same system in which the files that tell what is mounted, in the main
    /// tree and in the two library trees, hold a text.
    pub open spec fn telling_mounts(self, caller: &Caller, text: Seq<char>) -> MemFsModel {
        let data = encode_utf8(text);
        self.with_mount_files(caller, ""@, data).with_mount_files(
            caller,
            "/musl"@,
            data,
        ).with_mount_files(caller, "/glibc"@, data)
    }

    /// The same system with the directories of a tree for devices.
    pub open spec fn with_device_dirs(self, caller: &Caller, root: Seq<char>) -> MemFsModel {
        self.add_dir(caller, root + "/dev"@).add_dir(caller, root + "/dev/loop"@).add_dir(
            caller,
            root + "/dev/block"@,
        )
    }

    /// The same system with an empty file for a device in each tree.
    pub open spec fn with_device(self, caller: &Caller, path: Seq<char>) -> MemFsModel {
        self.add_file(caller, ""@ + path, Seq::empty()).add_file(
            caller,
            "/musl"@ + path,
            Seq::empty(),
        ).add_file(caller, "/glibc"@ + path, Seq::empty())
    }

    /// The same system with an empty file for each of some devices.
    pub open spec fn with_devices(self, caller: &Caller, paths: Seq<Seq<char>>) -> MemFsModel
        decreases paths.len(),
    {
        if paths.len() == 0 {
            self
        } else {
            self.with_devices(caller, paths.drop_last()).with_device(caller, paths.last())
        }
    }
}

fn put_contents(mem: &mut MemFileSystem, caller: &Caller, path: &str, data: &[u8])
    requires
        old(mem).wf(),
    ensures
        final(mem).wf(),
        final(mem)@ == old(mem)@.with_contents(caller, path@, data@),
{
    if data.len() > MAX_FILE_OFFSET {
        return;
    }
    let content = MemFileContent::from_slice(data);
    let times = FileTimes::now(caller.now);
    if !mem.write_file_content(path, content, times) {
        let mut copy: Vec<u8> = Vec::new();
        append_bytes(&mut copy, data);
        assert(copy@ =~= data@);
        mem.add_file(caller, path, copy);
    }
}

fn put_mount_files(mem: &mut MemFileSystem, caller: &Caller, root: &str, data: &[u8])
    requires
        old(mem).wf(),
    ensures
        final(mem).wf(),
        final(mem)@ == old(mem)@.with_mount_files(caller, root@, data@),
{
    put_contents(mem, caller, concat(root, "/proc/mounts").as_str(), data);
    put_contents(mem, caller, concat(root, "/etc/mtab").as_str(), data);
}

fn put_device_dirs(mem: &mut MemFileSystem, caller: &Caller, root: &str)
    requires
        old(mem).wf(),
    ensures
        final(mem).wf(),
        final(mem)@ == old(mem)@.with_device_dirs(caller, root@),
{
    mem.add_dir(caller, concat(root, "/dev").as_str());
    mem.add_dir(caller, concat(root, "/dev/loop").as_str());
    mem.add_dir(caller, concat(root, "/dev/block").as_str());
}

/// What is mounted once a mount has been checked.
pub enum Mountable {
    Tmpfs,
    Vfat(VfatVolume, int),
}

impl Vfs {
    /// Writes what is mounted into the files that tell it.
    fn refresh_mount_pseudo_files(&mut self, caller: &Caller)
        requires
            old(self).wf(),
        ensures
            final(self).wf(),
            *final(self) == (Vfs {
                files: Files { mem: final(self).files.mem, ..old(self).files },
                ..*old(self)
            }),
            final(self).files.mem@ == old(self).files.mem@.telling_mounts(
                caller,
                table_text(old(self).mounts@),
            ),
    {
        let text = mount_table_text(&self.mounts);
        let data = text.as_str().as_bytes();
        put_mount_files(&mut self.files.mem, caller, "", data);
        put_mount_files(&mut self.files.mem, caller, "/musl", data);
        put_mount_files(&mut self.files.mem, caller, "/glibc", data);
    }

    /// Adds a file for each known device.
    pub fn refresh_block_device_nodes(&mut self, caller: &Caller)
        requires
            old(self).wf(),
        ensures
            final(self).wf(),
            *final(self) == (Vfs {
                files: Files { mem: final(self).files.mem, ..old(self).files },
                ..*old(self)
            }),
            ({
                let paths = old(self).files.blocks.listed_paths();
                final(self).files.mem@ == (if paths.len() == 0 {
                    old(self).files.mem@
                } else {
                    old(self).files.mem@.with_device_dirs(caller, ""@).with_device_dirs(
                        caller,
                        "/musl"@,
                    ).with_device_dirs(caller, "/glibc"@).with_devices(caller, paths)
                })
            }),
    {
        let devices = self.files.blocks.list_device_paths();
        if devices.len() == 0 {
            return;
        }
        put_device_dirs(&mut self.files.mem, caller, "");
        put_device_dirs(&mut self.files.mem, caller, "/musl");
        put_device_dirs(&mut self.files.mem, caller, "/glibc");
        let ghost base = self.files.mem@;
        let ghost paths = texts(devices@);
        let mut i: usize = 0;
        assert(paths.take(0) =~= Seq::<Seq<char>>::empty());
        while i < devices.len()
            invariant
                self.wf(),
                *self == (Vfs {
                    files: Files { mem: self.files.mem, ..old(self).files },
                    ..*old(self)
                }),
                0 <= i <= devices@.len(),
                paths == texts(devices@),
                self.files.mem@ == base.with_devices(caller, paths.take(i as int)),
            decreases devices@.len() - i,
        {
            proof {
                assert(paths.take(i + 1).drop_last() =~= paths.take(i as int));
                assert(paths.take(i + 1).last() == devices@[i as int]@);
            }
            let dev = devices[i].as_str();
            let empty: Vec<u8> = Vec::new();
            self.files.mem.add_file(caller, concat("", dev).as_str(), empty);
            let empty: Vec<u8> = Vec::new();
            self.files.mem.add_file(caller, concat("/musl", dev).as_str(), empty);
            let empty: Vec<u8> = Vec::new();
            self.files.mem.add_file(caller, concat("/glibc", dev).as_str(), empty);
            i = i + 1;
        }
        assert(paths.take(i as int) =~= paths);
    }

    /// The mount of the root.
    pub open spec fn is_root_entry(e: MountEntry, ext4: bool) -> bool {
        &&& e.source@ == "rootfs"@
        &&& e.logical_target@ == "/"@
        &&& e.host_target@ == "/"@
        &&& e.fstype@ == (if ext4 {
            "ext4"@
        } else {
            "tmpfs"@
        })
        &&& e.backend is Root
    }

    /// Begins a table of mounts with the root alone.
    pub fn init_mount_table(&mut self, caller: &Caller)
        requires
            old(self).wf(),
        ensures
            final(self).wf(),
            *final(self) == (Vfs {
                files: Files { mem: final(self).files.mem, ..old(self).files },
                mounts: final(self).mounts,
                ..*old(self)
            }),
            final(self).mounts@.len() == 1,
            Vfs::is_root_entry(final(self).mounts@[0], old(self).files.vol.names.mounted),
            final(self).files.mem@ == old(self).files.mem@.telling_mounts(
                caller,
                table_text(final(self).mounts@),
            ),
    {
        let fstype: String = if self.files.vol.names.mounted {
            "ext4".to_owned()
        } else {
            "tmpfs".to_owned()
        };
        let mut mounts: Vec<MountEntry> = Vec::new();
        mounts.push(
            MountEntry {
                source: "rootfs".to_owned(),
                logical_target: "/".to_owned(),
                host_target: "/".to_owned(),
                fstype,
                backend: MountBackend::Root,
            },
        );
        proof {
            lemma_root_is_normal();
        }
        self.mounts = mounts;
        self.refresh_mount_pseudo_files(caller);
    }

    /// Whether a source is a block device that can be mounted.
    pub open spec fn source_checked<D: RawBlockDevice>(
        &self,
        dev: &D,
        source: Seq<char>,
        now: Timestamp,
    ) -> Result<(), Fault> {
        match self.told(dev, source, true, now) {
            Err(f) => Err(f),
            Ok(meta) => if meta.kind != VfsNodeKind::Other || (meta.mode & S_IFMT) != S_IFBLK
                || self.numbers_at(source) != Some((meta.rdev_major, meta.rdev_minor)) {
                Err(Fault::Sys(SysErrNo::ENOTBLK))
            } else if self.files.blocks.device_at(local_part(source)) is None {
                Err(Fault::Sys(SysErrNo::ENODEV))
            } else if self.files.blocks.root_source@ == local_part(source) {
                Err(Fault::Sys(SysErrNo::EBUSY))
            } else {
                Ok(())
            },
        }
    }

    fn validate_mount_source<D: RawBlockDevice>(&self, dev: &D, source: &str, now: Timestamp) -> (r:
        Result<(), Fault>)
        requires
            self.wf(),
        ensures
            r == self.source_checked(dev, source@, now),
    {
        let meta = match self.metadata(dev, source, true, now) {
            Err(f) => {
                return Err(f);
            },
            Ok(meta) => meta,
        };
        let local = local_device_path(source);
        let same = match self.device_numbers(source) {
            Some((major, minor)) => major == meta.rdev_major && minor == meta.rdev_minor,
            None => false,
        };
        if meta.kind != VfsNodeKind::Other || (meta.mode & S_IFMT) != S_IFBLK || !same {
            return Err(Fault::Sys(SysErrNo::ENOTBLK));
        }
        if self.files.blocks.range_for_path(local.as_str()).is_none() {
            return Err(Fault::Sys(SysErrNo::ENODEV));
        }
        if self.files.blocks.is_root_source(local.as_str()) {
            return Err(Fault::Sys(SysErrNo::EBUSY));
        }
        Ok(())
    }

    /// What would be mounted from a source: a file system in memory, or a FAT
    /// volume on a device.
    pub open spec fn mountable<D: RawBlockDevice>(
        &self,
        dev: &D,
        source: Seq<char>,
        fstype: Seq<char>,
    ) -> Result<Mountable, SysErrNo> {
        if fstype == "tmpfs"@ {
            Ok(Mountable::Tmpfs)
        } else if fstype == "vfat"@ || fstype == "fat"@ || fstype == "msdos"@ {
            match self.files.blocks.device_at(local_part(source)) {
                None => Err(SysErrNo::ENODEV),
                Some(i) => match self.files.blocks.devices@[i].range.bytes_at(dev, 0, 512) {
                    Err(e) => Err(e),
                    Ok(boot) => match volume_of(boot) {
                        None => Err(SysErrNo::EINVAL),
                        Some(volume) => Ok(Mountable::Vfat(volume, i)),
                    },
                },
            }
        } else {
            Err(SysErrNo::ENODEV)
        }
    }

    /// Whether something serves what was found mountable.
    pub open spec fn serves(&self, b: MountBackend, what: Mountable) -> bool {
        match (b, what) {
            (MountBackend::Tmpfs, Mountable::Tmpfs) => true,
            (MountBackend::Vfat { volume, range }, Mountable::Vfat(v, i)) => volume == v
                && range.start == self.files.blocks.devices@[i].range.start && range.len
                == self.files.blocks.devices@[i].range.len,
            _ => false,
        }
    }

    fn resolve_mount_backend<D: RawBlockDevice>(&self, dev: &D, source: &str, fstype: &str) -> (r:
        Result<(String, MountBackend), SysErrNo>)
        requires
            self.wf(),
        ensures
            match r {
                Err(e) => self.mountable(dev, source@, fstype@) == Err::<Mountable, SysErrNo>(e),
                Ok((name, backend)) => {
                    &&& self.mountable(dev, source@, fstype@) is Ok
                    &&& self.serves(backend, self.mountable(dev, source@, fstype@)->Ok_0)
                    &&& name@ == (if backend is Tmpfs {
                        "tmpfs"@
                    } else {
                        "vfat"@
                    })
                    &&& match backend {
                        MountBackend::Vfat { volume, .. } => volume.wf(),
                        _ => true,
                    }
                },
            },
    {
        if str_eq(fstype, "tmpfs") {
            return Ok(("tmpfs".to_owned(), MountBackend::Tmpfs));
        }
        if str_eq(fstype, "vfat") || str_eq(fstype, "fat") || str_eq(fstype, "msdos") {
            let local = local_device_path(source);
            let at: usize = match self.files.blocks.range_for_path(local.as_str()) {
                None => {
                    return Err(SysErrNo::ENODEV);
                },
                Some(at) => at,
            };
            let device = &self.files.blocks.devices[at].range;
            return match VfatVolume::open(dev, device) {
                Err(e) => Err(e),
                Ok(volume) => Ok(
                    (
                        "vfat".to_owned(),
                        MountBackend::Vfat {
                            volume,
                            range: BlockRange::new(device.start, device.len),
                        },
                    ),
                ),
            };
        }
        Err(SysErrNo::ENODEV)
    }

    /// Whether something is mounted at a place.
    pub open spec fn is_mount_point(&self, target: Seq<char>) -> bool {
        exists|i: int|
            0 <= i < self.mounts@.len() && (#[trigger] self.mounts@[i]).host_target@ == target
    }

    fn holds_mount(&self, target: &str) -> (r: bool)
        ensures
            r == self.is_mount_point(target@),
    {
        let mut i: usize = 0;
        while i < self.mounts.len()
            invariant
                0 <= i <= self.mounts@.len(),
                forall|j: int|
                    0 <= j < i ==> (#[trigger] self.mounts@[j]).host_target@ != target@,
            decreases self.mounts@.len() - i,
        {
            if str_eq(self.mounts[i].host_target.as_str(), target) {
                assert(self.mounts@[i as int].host_target@ == target@);
                return true;
            }
            i = i + 1;
        }
        false
    }

    /// What a mount that is asked for comes to before anything is changed.
    pub open spec fn mount_checked<D: RawBlockDevice>(
        &self,
        dev: &D,
        source: Seq<char>,
        host: Seq<char>,
        fstype: Seq<char>,
        flags: usize,
        now: Timestamp,
    ) -> Result<Mountable, Fault> {
        if flags != 0 {
            Err(Fault::Sys(SysErrNo::EINVAL))
        } else {
            match self.mountable(dev, source, fstype) {
                Err(e) => Err(Fault::Sys(e)),
                Ok(what) => if !(what is Tmpfs) && !self.files.vol.names.mounted {
                    Err(Fault::Sys(SysErrNo::ENODEV))
                } else if !(what is Tmpfs) && self.source_checked(dev, source, now) is Err {
                    Err(self.source_checked(dev, source, now)->Err_0)
                } else {
                    match self.told(dev, host, true, now) {
                        Err(f) => Err(f),
                        Ok(meta) => if meta.kind != VfsNodeKind::Directory {
                            Err(Fault::Sys(SysErrNo::ENOTDIR))
                        } else if !(what is Tmpfs) && self.volume_told("/"@) is Err {
                            Err(self.volume_told("/"@)->Err_0)
                        } else {
                            Ok(what)
                        },
                    }
                },
            }
        }
    }

    /// What mounting a file system does.
    pub open spec fn fs_mounted<D: RawBlockDevice>(
        &self,
        was: &Self,
        dev: &D,
        caller: &Caller,
        source: Seq<char>,
        logical_target: Seq<char>,
        host_target: Seq<char>,
        fstype: Seq<char>,
        flags: usize,
        r: Result<(), Fault>,
    ) -> bool {
        &&& (*self == (Vfs {
                files: Files { mem: self.files.mem, ..was.files },
                mounts: self.mounts,
                ..*was
            }))
        &&& (match was.mount_checked(
                dev,
                normalized(source),
                normalized(host_target),
                fstype,
                flags,
                caller.now,
            ) {
                Err(f) => r == Err::<(), Fault>(f) && *self == *was,
                Ok(what) => {
                    let m = if what is Tmpfs {
                        was.files.mem@.add_dir_with_mode(
                            caller,
                            normalized(host_target),
                            0o1777,
                        )
                    } else {
                        was.files.mem@
                    };
                    if was.is_mount_point(normalized(host_target)) {
                        &&& r == Err::<(), Fault>(Fault::Sys(SysErrNo::EBUSY))
                        &&& self.mounts == was.mounts
                        &&& self.files.mem@ == m
                    } else {
                        let e = self.mounts@.last();
                        &&& r is Ok
                        &&& self.mounts@ == was.mounts@.push(e)
                        &&& e.source@ == normalized(source)
                        &&& e.logical_target@ == normalized(logical_target)
                        &&& e.host_target@ == normalized(host_target)
                        &&& e.fstype@ == (if what is Tmpfs {
                            "tmpfs"@
                        } else {
                            "vfat"@
                        })
                        &&& was.serves(e.backend, what)
                        &&& self.files.mem@ == m.telling_mounts(
                            caller,
                            table_text(self.mounts@),
                        )
                    }
                },
            })
    }

    /// Mounts a file system at a directory. A file system in memory gives its
    /// directory the mode 1777, even if something is mounted there already.
    pub fn mount_fs<D: RawBlockDevice>(
        &mut self,
        dev: &D,
        caller: &Caller,
        source: &str,
        logical_target: &str,
        host_target: &str,
        fstype: &str,
        flags: usize,
    ) -> (r: Result<(), Fault>)
        requires
            old(self).wf(),
        ensures
            final(self).wf(),
            final(self).fs_mounted(
                old(self),
                dev,
                caller,
                source@,
                logical_target@,
                host_target@,
                fstype@,
                flags,
                r,
            ),
    {
        let source = normalize_path(source);
        let logical_target = normalize_path(logical_target);
        let host = normalize_path(host_target);
        proof {
            crate::fs::path::normalize_is_idempotent(host_target@);
        }
        if flags != 0 {
            return Err(Fault::Sys(SysErrNo::EINVAL));
        }
        let (backend_fstype, backend) = match self.resolve_mount_backend(
            dev,
            source.as_str(),
            fstype,
        ) {
            Err(e) => {
                return Err(Fault::Sys(e));
            },
            Ok(found) => found,
        };
        let tmpfs = match &backend {
            MountBackend::Tmpfs => true,
            _ => false,
        };
        if !tmpfs && !self.files.vol.names.mounted {
            return Err(Fault::Sys(SysErrNo::ENODEV));
        }
        if !tmpfs {
            match self.validate_mount_source(dev, source.as_str(), caller.now) {
                Err(f) => {
                    return Err(f);
                },
                Ok(_) => {},
            }
        }
        match self.metadata(dev, host.as_str(), true, caller.now) {
            Err(f) => {
                return Err(f);
            },
            Ok(meta) => {
                if meta.kind != VfsNodeKind::Directory {
                    return Err(Fault::Sys(SysErrNo::ENOTDIR));
                }
            },
        }
        if !tmpfs {
            match self.files.vol.metadata("/") {
                Err(f) => {
                    return Err(f);
                },
                Ok(_) => {},
            }
        }
        if tmpfs {
            self.files.mem.add_dir_with_mode(caller, host.as_str(), 0o1777);
        }
        if self.holds_mount(host.as_str()) {
            return Err(Fault::Sys(SysErrNo::EBUSY));
        }
        let entry = MountEntry {
            source,
            logical_target,
            host_target: host,
            fstype: backend_fstype,
            backend,
        };
        let ghost e = entry;
        self.mounts.push(entry);
        assert(self.mounts@.last() == e);
        self.refresh_mount_pseudo_files(caller);
        Ok(())
    }

    /// Whether a mount is that of two targets.
    pub open spec fn mount_matches(&self, i: int, logical: Seq<char>, host: Seq<char>) -> bool {
        self.mounts@[i].logical_target@ == logical && self.mounts@[i].host_target@ == host
    }

    /// Whether a mount is the last of two targets.
    pub open spec fn is_last_mount(&self, i: int, logical: Seq<char>, host: Seq<char>) -> bool {
        &&& 0 <= i < self.mounts@.len()
        &&& self.mount_matches(i, logical, host)
        &&& forall|j: int|
            i < j < self.mounts@.len() ==> !#[trigger] self.mount_matches(j, logical, host)
    }

    fn last_mount(&self, logical: &str, host: &str) -> (r: Option<usize>)
        ensures
            match r {
                Some(i) => self.is_last_mount(i as int, logical@, host@),
                None => forall|j: int|
                    0 <= j < self.mounts@.len() ==> !#[trigger] self.mount_matches(
                        j,
                        logical@,
                        host@,
                    ),
            },
    {
        let mut i: usize = self.mounts.len();
        while i > 0
            invariant
                0 <= i <= self.mounts@.len(),
                forall|j: int|
                    i <= j < self.mounts@.len() ==> !#[trigger] self.mount_matches(
                        j,
                        logical@,
                        host@,
                    ),
            decreases i,
        {
            i = i - 1;
            if str_eq(self.mounts[i].logical_target.as_str(), logical) && str_eq(
                self.mounts[i].host_target.as_str(),
                host,
            ) {
                assert(self.mount_matches(i as int, logical@, host@));
                return Some(i);
            }
        }
        None
    }

    /// What unmounting a file system does.
    pub open spec fn fs_unmounted(
        &self,
        was: &Self,
        caller: &Caller,
        logical_target: Seq<char>,
        host_target: Seq<char>,
        flags: usize,
        r: Result<(), SysErrNo>,
    ) -> bool {
        &&& (*self == (Vfs {
                files: Files { mem: self.files.mem, ..was.files },
                mounts: self.mounts,
                ..*was
            }))
        &&& (({
                let logical = normalized(logical_target);
                let host = normalized(host_target);
                if flags & !UMOUNT_FLAGS != 0 || !(exists|i: int| #[trigger]
                    was.is_last_mount(i, logical, host)) {
                    r == Err::<(), SysErrNo>(SysErrNo::EINVAL) && *self == *was
                } else if logical == seq!['/'] {
                    r == Err::<(), SysErrNo>(SysErrNo::EBUSY) && *self == *was
                } else {
                    &&& r is Ok
                    &&& exists|i: int| #[trigger]
                        was.is_last_mount(i, logical, host) && self.mounts@
                            == was.mounts@.remove(i)
                    &&& self.files.mem@ == was.files.mem@.telling_mounts(
                        caller,
                        table_text(self.mounts@),
                    )
                }
            }))
    }

    /// Unmounts what was mounted last at a place; the root stays.
    pub fn umount_fs(
        &mut self,
        caller: &Caller,
        logical_target: &str,
        host_target: &str,
        flags: usize,
    ) -> (r: Result<(), SysErrNo>)
        requires
            old(self).wf(),
        ensures
            final(self).wf(),
            final(self).fs_unmounted(old(self), caller, logical_target@, host_target@, flags, r),
    {
        if flags & !UMOUNT_FLAGS != 0 {
            return Err(SysErrNo::EINVAL);
        }
        let logical = normalize_path(logical_target);
        let host = normalize_path(host_target);
        let at: usize = match self.last_mount(logical.as_str(), host.as_str()) {
            None => {
                return Err(SysErrNo::EINVAL);
            },
            Some(at) => at,
        };
        assert(old(self).is_last_mount(at as int, logical@, host@));
        proof {
            reveal_strlit("/");
            assert("/"@ =~= seq!['/']);
        }
        if str_eq(logical.as_str(), "/") {
            return Err(SysErrNo::EBUSY);
        }
        let _ = self.mounts.remove(at);
        proof {
            assert forall|i: int| 0 <= i < self.mounts@.len() implies (
            #[trigger] self.mounts@[i]).wf() by {
                assert(self.mounts@[i] == old(self).mounts@[if i < at { i } else { i + 1 }]);
            }
        }
        self.refresh_mount_pseudo_files(caller);
        Ok(())
    }

    /// What was mounted where nothing was mounted before is what is unmounted
    /// there: the table of mounts is then as it was.
    pub proof fn unmount_undoes_mount(was: &Vfs, mid: &Vfs, after: &Vfs, e: MountEntry, i: int)
        requires
            !was.is_mount_point(e.host_target@),
            mid.mounts@ == was.mounts@.push(e),
            mid.is_last_mount(i, e.logical_target@, e.host_target@),
            after.mounts@ == mid.mounts@.remove(i),
        ensures
            after.mounts@ == was.mounts@,
    {
        let last = was.mounts@.len() as int;
        assert(mid.mount_matches(last, e.logical_target@, e.host_target@));
        if i < last {
            assert(was.mounts@[i].host_target@ == e.host_target@);
        }
        assert(after.mounts@ =~= was.mounts@);
    }
}

proof fn lemma_root_is_normal()
    ensures
        normalized("/"@) == "/"@,
{
    reveal_strlit("/");
    assert("/"@ =~= seq!['/']);
    crate::fs::path::lemma_parts_of_render(true, Seq::empty());
    assert(crate::fs::path::render(true, Seq::empty()) =~= "/"@);
}

} // verus!
