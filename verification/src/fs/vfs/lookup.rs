//! Where paths lead in the tree, what is told of what lies there, and whether a
//! task may get there.
use vstd::prelude::*;
use vstd::utf8::encode_utf8;

use crate::errno::SysErrNo;
use crate::fs::block_dev::device::RawBlockDevice;
use crate::fs::block_dev::registry::{
    loop_device_path, DEV_LOOP_CONTROL_MAJOR, DEV_LOOP_CONTROL_MINOR, DEV_LOOP_MAJOR,
};
use crate::fs::content::is_elf;
use crate::fs::ext4::resolve::{link_target, resolve_link_target};
use crate::fs::ext4::types::{Ext4Metadata, Ext4NodeKind};
use crate::fs::ext4::volume::Fault;
use crate::fs::fd::descriptor::{FileDescriptor, VfsNodeKind};
use crate::fs::fd::handle::{is_dev_null_path, is_dev_zero_path, names_null, names_zero, MemHandle};
use crate::fs::memfs::model::{sharers, MemFsModel};
use crate::fs::memfs::store::MemFileSystem;
use crate::fs::node::{FileTimes, MemNodeMetadata};
use crate::fs::path::{normalize_path, normalized, parts_of, path_parts, render, render_path};
use crate::fs::vfs::tree::Vfs;
use crate::fs::vfs::types::{
    check_metadata_access_with_identity, device_told, from_ext4, from_vfat, kind_from_ext4,
    kind_told, metadata_for_block_device_number, metadata_for_char_device, metadata_for_mem_node,
    metadata_for_mem_special, metadata_from_ext4, metadata_from_vfat, node_told, permitted,
    special_told, synthetic, synthetic_metadata, CredentialIdentity, VfsMetadata, S_IFBLK, S_IFCHR,
    S_IFDIR, S_IFIFO, S_IFLNK, S_IFREG, S_IFSOCK, W_OK, X_OK,
};
use crate::task::{Caller, Timestamp};
use crate::text::{concat, concat3, decimal, str_eq, texts};

verus! {

/// How many links are followed on the way to a node.
pub const MAX_FOLLOWS: usize = 40;

impl MemFsModel {
    /// Whether a file is the first with some contents.
    pub open spec fn is_first_sharer(self, backing: int, k: int) -> bool {
        &&& 0 <= k < self.files.len()
        &&& self.files[k].backing == backing
        &&& forall|j: int| 0 <= j < k ==> (#[trigger] self.files[j]).backing != backing
    }

    /// The key that all names of a file have in common: that of the first.
    pub open spec fn link_key(self, name: Seq<char>) -> Seq<char> {
        let backing = self.files[self.file_index(name)->0].backing;
        self.files[choose|k: int| self.is_first_sharer(backing, k)].link_key
    }

    /// How many names a file has.
    pub open spec fn link_count(self, name: Seq<char>) -> u32 {
        let i = self.file_index(name);
        let n = if i is Some {
            sharers(self.files, self.files[i->0].backing)
        } else {
            1
        };
        if n < 1 {
            1
        } else if n > u32::MAX {
            u32::MAX
        } else {
            n as u32
        }
    }

    /// What is recorded of a node, or else that of one with a given mode.
    pub open spec fn meta_or(self, name: Seq<char>, mode: u32) -> MemNodeMetadata {
        match self.meta_of(name) {
            Some(meta) => meta,
            None => MemNodeMetadata::plain(mode),
        }
    }
}

/// The mode of a file of which none is recorded.
pub open spec fn usual_mode(content: Seq<u8>) -> u32 {
    if is_elf(content) {
        0o777
    } else {
        0o666
    }
}

fn key_of_links(mem: &MemFileSystem, name: &str) -> (r: Option<String>)
    requires
        mem.wf(),
    ensures
        match r {
            Some(key) => mem@.file_index(normalized(name@)) is Some && key@ == mem@.link_key(
                normalized(name@),
            ),
            None => mem@.file_index(normalized(name@)) is None,
        },
{
    match mem.file_link_key(name) {
        None => None,
        Some(key) => {
            proof {
                let m = mem@;
                let backing = m.files[m.file_index(normalized(name@))->0].backing;
                let k = choose|k: int|
                    {
                        &&& 0 <= k < m.files.len()
                        &&& (#[trigger] m.files[k]).link_key == key@
                        &&& m.files[k].backing == backing
                        &&& forall|j: int|
                            0 <= j < k ==> (#[trigger] m.files[j]).backing != m.files[k].backing
                    };
                assert(m.is_first_sharer(backing, k));
                let c = choose|c: int| m.is_first_sharer(backing, c);
                assert(m.is_first_sharer(backing, c));
                if c < k {
                    assert(m.files[c].backing != backing);
                } else if k < c {
                    assert(m.files[k].backing != backing);
                }
            }
            Some(key)
        },
    }
}

fn recorded(mem: &MemFileSystem, name: &str, mode: u32) -> (r: MemNodeMetadata)
    requires
        mem.wf(),
    ensures
        r == mem@.meta_or(normalized(name@), mode),
{
    match mem.metadata(name) {
        Some(meta) => meta,
        None => MemNodeMetadata::new(mode),
    }
}

/// The path of a name inside a directory, as it is pieced together.
pub open spec fn pieced(dir: Seq<char>, name: Seq<char>) -> Seq<char> {
    if dir == seq!['/'] {
        seq!['/'] + name
    } else {
        dir + seq!['/'] + name
    }
}

/// The path of a name inside a directory, as it is pieced together.
pub fn piece_path(dir: &str, name: &str) -> (r: String)
    ensures
        r@ == pieced(dir@, name@),
{
    proof {
        reveal_strlit("/");
        assert("/"@ =~= seq!['/']);
    }
    if str_eq(dir, "/") {
        concat("/", name)
    } else {
        concat3(dir, "/", name)
    }
}

impl Vfs {
    /// Where a path leads once links at its end are followed.
    pub open spec fn final_target(&self, current: Seq<char>, nofollow: bool, fuel: nat) -> Result<
        Seq<char>,
        Fault,
    >
        decreases fuel,
    {
        let m = self.files.mem@;
        if fuel == 0 {
            Err(Fault::Sys(SysErrNo::ELOOP))
        } else if m.symlinks.contains_key(normalized(current)) {
            if nofollow {
                Err(Fault::Sys(SysErrNo::ELOOP))
            } else {
                self.final_target(
                    link_target(current, m.symlinks[normalized(current)]),
                    nofollow,
                    (fuel - 1) as nat,
                )
            }
        } else {
            match self.kind_at(current) {
                Err(f) => Err(f),
                Ok(Some(Ext4NodeKind::Symlink)) => if nofollow {
                    Err(Fault::Sys(SysErrNo::ELOOP))
                } else {
                    match self.files.vol.names.resolved_links(current) {
                        Err(f) => Err(f),
                        Ok(target) => self.final_target(target, nofollow, (fuel - 1) as nat),
                    }
                },
                Ok(_) => Ok(current),
            }
        }
    }

    /// Where a path leads once links at its end are followed.
    pub open spec fn ending(&self, path: Seq<char>, nofollow: bool) -> Result<Seq<char>, Fault> {
        self.final_target(normalized(path), nofollow, MAX_FOLLOWS as nat)
    }

    /// Where a path leads once links at its end are followed. Where links are
    /// not to be followed, a link there is an error.
    pub fn resolve_final_symlink(&self, path: &str, nofollow: bool) -> (r: Result<String, Fault>)
        requires
            self.wf(),
        ensures
            match r {
                Ok(p) => self.ending(path@, nofollow) == Ok::<Seq<char>, Fault>(p@),
                Err(f) => self.ending(path@, nofollow) == Err::<Seq<char>, Fault>(f),
            },
    {
        let mut current = normalize_path(path);
        let mut left: usize = MAX_FOLLOWS;
        while left > 0
            invariant
                self.wf(),
                left <= MAX_FOLLOWS,
                self.ending(path@, nofollow) == self.final_target(current@, nofollow, left as nat),
            decreases left,
        {
            let next: Option<String> = match self.files.mem.get_symlink(current.as_str()) {
                Some(target) => {
                    if nofollow {
                        return Err(Fault::Sys(SysErrNo::ELOOP));
                    }
                    Some(resolve_link_target(current.as_str(), target.as_str()))
                },
                None => match self.ext4_kind(current.as_str()) {
                    Err(f) => {
                        return Err(f);
                    },
                    Ok(Some(Ext4NodeKind::Symlink)) => {
                        if nofollow {
                            return Err(Fault::Sys(SysErrNo::ELOOP));
                        }
                        match self.files.vol.names.resolve_symlinks(current.as_str()) {
                            Err(f) => {
                                return Err(f);
                            },
                            Ok(target) => Some(target),
                        }
                    },
                    Ok(_) => None,
                },
            };
            match next {
                None => {
                    return Ok(current);
                },
                Some(path) => {
                    current = path;
                },
            }
            left = left - 1;
        }
        Err(Fault::Sys(SysErrNo::ELOOP))
    }

    /// Where links at the end of a path have been followed, no link is left
    /// there, neither in memory nor on the volume.
    pub proof fn no_link_at_the_end(&self, current: Seq<char>, nofollow: bool, fuel: nat)
        requires
            self.final_target(current, nofollow, fuel) is Ok,
        ensures
            ({
                let end = self.final_target(current, nofollow, fuel)->Ok_0;
                &&& !self.files.mem@.symlinks.contains_key(normalized(end))
                &&& self.kind_at(end) is Ok
                &&& self.kind_at(end) != Ok::<Option<Ext4NodeKind>, Fault>(
                    Some(Ext4NodeKind::Symlink),
                )
            }),
        decreases fuel,
    {
        let m = self.files.mem@;
        if m.symlinks.contains_key(normalized(current)) {
            self.no_link_at_the_end(
                link_target(current, m.symlinks[normalized(current)]),
                nofollow,
                (fuel - 1) as nat,
            );
        } else if self.kind_at(current) == Ok::<Option<Ext4NodeKind>, Fault>(
            Some(Ext4NodeKind::Symlink),
        ) {
            self.no_link_at_the_end(
                self.files.vol.names.resolved_links(current)->Ok_0,
                nofollow,
                (fuel - 1) as nat,
            );
        }
    }

    /// Where links are not to be followed, a path leads to itself.
    pub proof fn unfollowed_path_stays(&self, path: Seq<char>)
        requires
            self.ending(path, true) is Ok,
        ensures
            self.ending(path, true)->Ok_0 == normalized(path),
            self.ending(path, false) == self.ending(path, true),
    {
    }

    /// What is told of an in-memory file by a name, its contents and times.
    pub open spec fn file_told(
        &self,
        name: Seq<char>,
        len: int,
        node: MemNodeMetadata,
        nlink: u32,
        ino_key: Seq<char>,
        times: FileTimes,
        now: Timestamp,
    ) -> VfsMetadata {
        (if names_null(name) {
            device_told(name, S_IFCHR | 0o666, 1, 3, now)
        } else if names_zero(name) {
            device_told(name, S_IFCHR | 0o666, 1, 5, now)
        } else {
            match self.numbers_at(name) {
                Some((major, minor)) => device_told(
                    name,
                    if major == DEV_LOOP_CONTROL_MAJOR {
                        S_IFCHR | 0o666
                    } else {
                        S_IFBLK | 0o600
                    },
                    major,
                    minor,
                    now,
                ),
                None => node_told(
                    ino_key,
                    VfsNodeKind::Regular,
                    S_IFREG,
                    len as u64,
                    node,
                    nlink,
                    now,
                ),
            }
        }).at_times(times)
    }

    fn metadata_for_mem_file(
        &self,
        name: &str,
        len: usize,
        node: MemNodeMetadata,
        nlink: u32,
        ino_key: &str,
        times: FileTimes,
        now: Timestamp,
    ) -> (r: VfsMetadata)
        ensures
            r == self.file_told(name@, len as int, node, nlink, ino_key@, times, now),
    {
        let meta = if is_dev_null_path(name) {
            metadata_for_char_device(name, 1, 3, now)
        } else if is_dev_zero_path(name) {
            metadata_for_char_device(name, 1, 5, now)
        } else {
            match self.device_numbers(name) {
                Some((major, minor)) => if major == DEV_LOOP_CONTROL_MAJOR {
                    metadata_for_char_device(name, major, minor, now)
                } else {
                    metadata_for_block_device_number(name, major, minor, now)
                },
                None => metadata_for_mem_node(
                    ino_key,
                    VfsNodeKind::Regular,
                    S_IFREG,
                    len as u64,
                    node,
                    nlink,
                    now,
                ),
            }
        };
        meta.with_times(times)
    }

    /// What is told of the in-memory file of a name.
    pub open spec fn mem_file_told(&self, n: Seq<char>, now: Timestamp) -> VfsMetadata {
        let m = self.files.mem@;
        let b = m.backing_of(n);
        self.file_told(
            m.files[m.file_index(n)->0].name,
            b.content.len() as int,
            m.meta_or(n, usual_mode(b.content)),
            m.link_count(n),
            m.link_key(n),
            b.times,
            now,
        )
    }

    fn metadata_from_mem_file(&self, path: &str, now: Timestamp) -> (r: Option<VfsMetadata>)
        requires
            self.wf(),
        ensures
            match r {
                Some(meta) => self.files.mem@.file_index(normalized(path@)) is Some && meta
                    == self.mem_file_told(normalized(path@), now),
                None => self.files.mem@.file_index(normalized(path@)) is None,
            },
    {
        let mem = &self.files.mem;
        match mem.get_file(path) {
            None => None,
            Some(file) => {
                let elf = file.is_elf_image(mem);
                let node = recorded(
                    mem,
                    path,
                    if elf {
                        0o777
                    } else {
                        0o666
                    },
                );
                let nlink: u32 = mem.file_link_count(path);
                let key = match key_of_links(mem, path) {
                    Some(key) => key,
                    None => normalize_path(path),
                };
                Some(
                    self.metadata_for_mem_file(
                        file.name.as_str(),
                        file.size(mem),
                        node,
                        nlink,
                        key.as_str(),
                        file.times(mem),
                        now,
                    ),
                )
            },
        }
    }

    /// What is told of an open in-memory file whose name is gone.
    pub open spec fn handle_told(&self, h: MemHandle, now: Timestamp) -> VfsMetadata {
        let m = self.files.mem@;
        let n = normalized(h.name@);
        self.file_told(
            h.name@,
            h.content@.len() as int,
            m.meta_or(n, usual_mode(h.content@)),
            m.link_count(n),
            if m.file_index(n) is Some {
                m.link_key(n)
            } else {
                h.name@
            },
            h.times,
            now,
        )
    }

    fn metadata_from_mem_fd(&self, h: &MemHandle, now: Timestamp) -> (r: VfsMetadata)
        requires
            self.wf(),
            h.wf(),
        ensures
            r == self.handle_told(*h, now),
    {
        let mem = &self.files.mem;
        let elf = h.content.is_elf_image();
        let node = recorded(
            mem,
            h.name.as_str(),
            if elf {
                0o777
            } else {
                0o666
            },
        );
        let nlink: u32 = mem.file_link_count(h.name.as_str());
        let key = match key_of_links(mem, h.name.as_str()) {
            Some(key) => key,
            None => h.name.clone(),
        };
        self.metadata_for_mem_file(
            h.name.as_str(),
            h.content.len(),
            node,
            nlink,
            key.as_str(),
            h.times,
            now,
        )
    }

    /// What the volume tells of a path.
    pub open spec fn volume_told(&self, path: Seq<char>) -> Result<Ext4Metadata, Fault> {
        match self.files.vol.names.find_spec(path) {
            Err(f) => Err(f),
            Ok((ino, _)) => self.files.vol.told(ino),
        }
    }

    /// What is told of a path of the volume.
    pub open spec fn ext4_told<D: RawBlockDevice>(&self, dev: &D, path: Seq<char>, follow: bool) -> Result<
        VfsMetadata,
        Fault,
    > {
        match self.kind_at(path) {
            Err(f) => Err(f),
            Ok(None) => Err(self.missing_at(dev, path)),
            Ok(Some(kind)) => if kind == Ext4NodeKind::Symlink && follow {
                match self.files.vol.names.resolved_links(path) {
                    Err(f) => Err(f),
                    Ok(target) => match self.volume_told(target) {
                        Err(f) => Err(f),
                        Ok(meta) => Ok(from_ext4(meta)),
                    },
                }
            } else {
                match self.volume_told(path) {
                    Err(f) => Err(f),
                    Ok(meta) => Ok(VfsMetadata { kind: kind_told(kind), ..from_ext4(meta) }),
                }
            },
        }
    }

    fn ext4_metadata<D: RawBlockDevice>(&self, dev: &D, path: &str, follow: bool) -> (r: Result<
        VfsMetadata,
        Fault,
    >)
        requires
            self.wf(),
        ensures
            r == self.ext4_told(dev, path@, follow),
    {
        match self.ext4_kind(path) {
            Err(f) => Err(f),
            Ok(None) => Err(self.missing_path_errno(dev, path)),
            Ok(Some(kind)) => if kind == Ext4NodeKind::Symlink && follow {
                match self.files.vol.names.resolve_symlinks(path) {
                    Err(f) => Err(f),
                    Ok(target) => match self.files.vol.metadata(target.as_str()) {
                        Err(f) => Err(f),
                        Ok(meta) => Ok(metadata_from_ext4(meta)),
                    },
                }
            } else {
                match self.files.vol.metadata(path) {
                    Err(f) => Err(f),
                    Ok(meta) => {
                        let told = metadata_from_ext4(meta);
                        Ok(VfsMetadata { kind: kind_from_ext4(kind), ..told })
                    },
                }
            },
        }
    }

    /// What is told of a path, a link in memory being told of itself.
    pub open spec fn node_at<D: RawBlockDevice>(
        &self,
        dev: &D,
        path: Seq<char>,
        follow: bool,
        now: Timestamp,
    ) -> Result<VfsMetadata, Fault> {
        let n = normalized(path);
        let m = self.files.mem@;
        if self.removed(path) {
            Err(Fault::Sys(SysErrNo::ENOENT))
        } else {
            match self.fat_told(dev, path) {
                Some(Err(e)) => Err(Fault::Sys(e)),
                Some(Ok(meta)) => Ok(from_vfat(n, meta, now)),
                None => if m.has_dir(n) {
                    Ok(
                        node_told(
                            n,
                            VfsNodeKind::Directory,
                            S_IFDIR,
                            m.entries(n).len() as u64,
                            m.meta_or(n, 0o755),
                            1,
                            now,
                        ),
                    )
                } else if m.file_index(n) is Some {
                    Ok(self.mem_file_told(n, now))
                } else if m.symlinks.contains_key(n) {
                    Ok(
                        node_told(
                            n,
                            VfsNodeKind::Symlink,
                            S_IFLNK,
                            encode_utf8(m.symlinks[n]).len() as u64,
                            m.meta_or(n, 0o777),
                            1,
                            now,
                        ),
                    )
                } else if m.specials.contains_key(n) {
                    Ok(special_told(n, m.specials[n], m.meta_or(n, 0o666), now))
                } else if self.in_tmpfs(path) {
                    Err(self.missing_at(dev, path))
                } else {
                    self.ext4_told(dev, path, follow)
                },
            }
        }
    }

    fn node_metadata<D: RawBlockDevice>(
        &self,
        dev: &D,
        path: &str,
        follow: bool,
        now: Timestamp,
    ) -> (r: Result<VfsMetadata, Fault>)
        requires
            self.wf(),
        ensures
            r == self.node_at(dev, path@, follow, now),
    {
        if self.is_removed(path) {
            return Err(Fault::Sys(SysErrNo::ENOENT));
        }
        let norm = normalize_path(path);
        match self.vfat_metadata_for_path(dev, path) {
            Some(Err(e)) => {
                return Err(Fault::Sys(e));
            },
            Some(Ok(meta)) => {
                return Ok(metadata_from_vfat(norm.as_str(), meta, now));
            },
            None => {},
        }
        let mem = &self.files.mem;
        match mem.list_dir(path) {
            Ok(entries) => {
                proof {
                    let views = crate::fs::dirent::entry_views(entries@);
                    assert(views.len() == entries@.len());
                }
                let node = recorded(mem, path, 0o755);
                return Ok(
                    metadata_for_mem_node(
                        norm.as_str(),
                        VfsNodeKind::Directory,
                        S_IFDIR,
                        entries.len() as u64,
                        node,
                        1,
                        now,
                    ),
                );
            },
            Err(_) => {},
        }
        match self.metadata_from_mem_file(path, now) {
            Some(meta) => {
                return Ok(meta);
            },
            None => {},
        }
        match mem.get_symlink(path) {
            Some(target) => {
                let node = recorded(mem, path, 0o777);
                return Ok(
                    metadata_for_mem_node(
                        norm.as_str(),
                        VfsNodeKind::Symlink,
                        S_IFLNK,
                        target.as_str().as_bytes().len() as u64,
                        node,
                        1,
                        now,
                    ),
                );
            },
            None => {},
        }
        match mem.get_special(path) {
            Some(kind) => {
                let node = recorded(mem, path, 0o666);
                return Ok(metadata_for_mem_special(norm.as_str(), kind, node, now));
            },
            None => {},
        }
        if self.is_tmpfs_path(path) {
            return Err(self.missing_path_errno(dev, path));
        }
        self.ext4_metadata(dev, path, follow)
    }

    /// Whether a path is a link in memory that is found there.
    pub open spec fn shows_link(&self, path: Seq<char>) -> bool {
        let n = normalized(path);
        let m = self.files.mem@;
        &&& !self.removed(path)
        &&& self.fat_at(path) is None
        &&& !m.has_dir(n)
        &&& m.file_index(n) is None
        &&& m.symlinks.contains_key(n)
    }

    /// What is told of a path.
    #[verifier::opaque]
    pub open spec fn told<D: RawBlockDevice>(
        &self,
        dev: &D,
        path: Seq<char>,
        follow: bool,
        now: Timestamp,
    ) -> Result<VfsMetadata, Fault> {
        if follow && self.shows_link(path) {
            match self.ending(path, false) {
                Err(f) => Err(f),
                Ok(end) => self.node_at(dev, end, true, now),
            }
        } else {
            self.node_at(dev, path, follow, now)
        }
    }

    /// What is told of a path, with or without following a link at its end.
    pub fn metadata<D: RawBlockDevice>(
        &self,
        dev: &D,
        path: &str,
        follow_symlink: bool,
        now: Timestamp,
    ) -> (r: Result<VfsMetadata, Fault>)
        requires
            self.wf(),
        ensures
            r == self.told(dev, path@, follow_symlink, now),
    {
        reveal(Vfs::told);
        if follow_symlink && !self.is_removed(path) && self.mounted_vfat_backend(path).is_none()
            && !self.files.mem.is_dir(path) && self.files.mem.get_file(path).is_none()
            && self.files.mem.get_symlink(path).is_some() {
            return match self.resolve_final_symlink(path, false) {
                Err(f) => Err(f),
                Ok(end) => self.node_metadata(dev, end.as_str(), true, now),
            };
        }
        self.node_metadata(dev, path, follow_symlink, now)
    }

    /// Whether a task may search the directories along the first `n` names.
    pub open spec fn searchable<D: RawBlockDevice>(
        &self,
        dev: &D,
        names: Seq<Seq<char>>,
        n: nat,
        identity: CredentialIdentity,
        caller: &Caller,
    ) -> Result<(), Fault>
        decreases n,
    {
        if n == 0 {
            Ok(())
        } else {
            match self.searchable(dev, names, (n - 1) as nat, identity, caller) {
                Err(f) => Err(f),
                Ok(_) => match self.told(dev, render(true, names.take(n as int)), true, caller.now) {
                    Err(f) => Err(f),
                    Ok(meta) => if permitted(&meta, &caller.cred, X_OK, identity) {
                        Ok(())
                    } else {
                        Err(Fault::Sys(SysErrNo::EACCES))
                    },
                },
            }
        }
    }

    /// Whether a task may search all directories in front of a path's end.
    pub open spec fn reachable<D: RawBlockDevice>(
        &self,
        dev: &D,
        path: Seq<char>,
        identity: CredentialIdentity,
        caller: &Caller,
    ) -> Result<(), Fault> {
        let names = parts_of(normalized(path));
        self.searchable(
            dev,
            names,
            if names.len() == 0 {
                0
            } else {
                (names.len() - 1) as nat
            },
            identity,
            caller,
        )
    }

    /// Whether a task may search all directories in front of a path's end.
    pub fn check_search_access<D: RawBlockDevice>(
        &self,
        dev: &D,
        path: &str,
        identity: CredentialIdentity,
        caller: &Caller,
    ) -> (r: Result<(), Fault>)
        requires
            self.wf(),
        ensures
            r == self.reachable(dev, path@, identity, caller),
    {
        let norm = normalize_path(path);
        let names = path_parts(norm.as_str());
        let ghost all = texts(names@);
        let mut front: Vec<String> = Vec::new();
        let mut i: usize = 0;
        assert(texts(front@) =~= all.take(0));
        while names.len() - i > 1
            invariant
                self.wf(),
                all == texts(names@),
                all == parts_of(normalized(path@)),
                0 <= i <= names@.len(),
                i == 0 || i < names@.len(),
                texts(front@) == all.take(i as int),
                self.searchable(dev, all, i as nat, identity, caller) is Ok,
            decreases names@.len() - i,
        {
            let part: String = names[i].clone();
            front.push(part);
            assert(texts(front@) =~= all.take(i + 1));
            let current = render_path(true, &front);
            i = i + 1;
            let fault: Option<Fault> = match self.metadata(dev, current.as_str(), true, caller.now) {
                Err(f) => Some(f),
                Ok(meta) => match check_metadata_access_with_identity(
                    &meta,
                    &caller.cred,
                    X_OK,
                    identity,
                ) {
                    Ok(_) => None,
                    Err(e) => Some(Fault::Sys(e)),
                },
            };
            match fault {
                Some(f) => {
                    proof {
                        self.lemma_search_stops(
                            dev,
                            all,
                            i as nat,
                            (names@.len() - 1) as nat,
                            identity,
                            caller,
                        );
                    }
                    return Err(f);
                },
                None => {},
            }
        }
        Ok(())
    }

    proof fn lemma_search_stops<D: RawBlockDevice>(
        &self,
        dev: &D,
        names: Seq<Seq<char>>,
        i: nat,
        n: nat,
        identity: CredentialIdentity,
        caller: &Caller,
    )
        requires
            i <= n,
            self.searchable(dev, names, i, identity, caller) is Err,
        ensures
            self.searchable(dev, names, n, identity, caller) == self.searchable(
                dev,
                names,
                i,
                identity,
                caller,
            ),
        decreases n,
    {
        if i < n {
            self.lemma_search_stops(dev, names, i, (n - 1) as nat, identity, caller);
        }
    }

    /// Whether a task may use what lies at a path in some ways.
    pub open spec fn usable<D: RawBlockDevice>(
        &self,
        dev: &D,
        path: Seq<char>,
        follow: bool,
        access_mode: usize,
        identity: CredentialIdentity,
        caller: &Caller,
    ) -> Result<(), Fault> {
        match self.reachable(dev, path, identity, caller) {
            Err(f) => Err(f),
            Ok(_) => match self.told(dev, path, follow, caller.now) {
                Err(f) => Err(f),
                Ok(meta) => if permitted(&meta, &caller.cred, access_mode, identity) {
                    Ok(())
                } else {
                    Err(Fault::Sys(SysErrNo::EACCES))
                },
            },
        }
    }

    /// Whether a task may use what lies at a path in some ways.
    pub fn check_access_with_identity<D: RawBlockDevice>(
        &self,
        dev: &D,
        path: &str,
        follow_symlink: bool,
        access_mode: usize,
        identity: CredentialIdentity,
        caller: &Caller,
    ) -> (r: Result<(), Fault>)
        requires
            self.wf(),
        ensures
            r == self.usable(dev, path@, follow_symlink, access_mode, identity, caller),
    {
        match self.check_search_access(dev, path, identity, caller) {
            Err(f) => {
                return Err(f);
            },
            Ok(_) => {},
        }
        match self.metadata(dev, path, follow_symlink, caller.now) {
            Err(f) => Err(f),
            Ok(meta) => match check_metadata_access_with_identity(
                &meta,
                &caller.cred,
                access_mode,
                identity,
            ) {
                Ok(_) => Ok(()),
                Err(e) => Err(Fault::Sys(e)),
            },
        }
    }

    /// Whether a task may use what lies at a path, by its real identity.
    pub fn check_access<D: RawBlockDevice>(
        &self,
        dev: &D,
        path: &str,
        follow_symlink: bool,
        access_mode: usize,
        caller: &Caller,
    ) -> (r: Result<(), Fault>)
        requires
            self.wf(),
        ensures
            r == self.usable(
                dev,
                path@,
                follow_symlink,
                access_mode,
                CredentialIdentity::Real,
                caller,
            ),
    {
        self.check_access_with_identity(
            dev,
            path,
            follow_symlink,
            access_mode,
            CredentialIdentity::Real,
            caller,
        )
    }

    /// Whether a task may use what lies at a path, by its effective or its real
    /// identity.
    pub fn check_access_with_effective<D: RawBlockDevice>(
        &self,
        dev: &D,
        path: &str,
        follow_symlink: bool,
        access_mode: usize,
        effective: bool,
        caller: &Caller,
    ) -> (r: Result<(), Fault>)
        requires
            self.wf(),
        ensures
            r == self.usable(
                dev,
                path@,
                follow_symlink,
                access_mode,
                if effective {
                    CredentialIdentity::Effective
                } else {
                    CredentialIdentity::Real
                },
                caller,
            ),
    {
        self.check_access_with_identity(
            dev,
            path,
            follow_symlink,
            access_mode,
            CredentialIdentity::from_effective_flag(effective),
            caller,
        )
    }

    /// Whether a task may add nodes to a directory.
    pub open spec fn may_create<D: RawBlockDevice>(
        &self,
        dev: &D,
        parent: Seq<char>,
        caller: &Caller,
    ) -> Result<(), Fault> {
        match self.told(dev, parent, true, caller.now) {
            Err(f) => Err(f),
            Ok(meta) => if meta.kind != VfsNodeKind::Directory {
                Err(Fault::Sys(SysErrNo::ENOTDIR))
            } else {
                match self.reachable(dev, parent, CredentialIdentity::Filesystem, caller) {
                    Err(f) => Err(f),
                    Ok(_) => if permitted(
                        &meta,
                        &caller.cred,
                        W_OK | X_OK,
                        CredentialIdentity::Filesystem,
                    ) {
                        Ok(())
                    } else {
                        Err(Fault::Sys(SysErrNo::EACCES))
                    },
                }
            },
        }
    }

    /// Whether a task may add nodes to a directory.
    pub fn check_create_access<D: RawBlockDevice>(&self, dev: &D, parent: &str, caller: &Caller) -> (r:
        Result<(), Fault>)
        requires
            self.wf(),
        ensures
            r == self.may_create(dev, parent@, caller),
    {
        let meta = match self.metadata(dev, parent, true, caller.now) {
            Err(f) => {
                return Err(f);
            },
            Ok(meta) => meta,
        };
        if meta.kind != VfsNodeKind::Directory {
            return Err(Fault::Sys(SysErrNo::ENOTDIR));
        }
        match self.check_search_access(dev, parent, CredentialIdentity::Filesystem, caller) {
            Err(f) => {
                return Err(f);
            },
            Ok(_) => {},
        }
        match check_metadata_access_with_identity(
            &meta,
            &caller.cred,
            W_OK | X_OK,
            CredentialIdentity::Filesystem,
        ) {
            Ok(_) => Ok(()),
            Err(e) => Err(Fault::Sys(e)),
        }
    }

    /// The target of the link at a path, if there is a link.
    pub open spec fn link_at(&self, path: Seq<char>) -> Result<Option<Seq<char>>, Fault> {
        let n = normalized(path);
        let m = self.files.mem@;
        if self.removed(path) {
            Err(Fault::Sys(SysErrNo::ENOENT))
        } else if m.symlinks.contains_key(n) {
            Ok(Some(m.symlinks[n]))
        } else {
            match self.kind_at(path) {
                Err(f) => Err(f),
                Ok(Some(Ext4NodeKind::Symlink)) => match self.files.vol.names.readlink_spec(path) {
                    Err(f) => Err(f),
                    Ok(target) => Ok(Some(target)),
                },
                Ok(_) => Ok(None),
            }
        }
    }

    fn lookup_symlink_target(&self, path: &str) -> (r: Result<Option<String>, Fault>)
        requires
            self.wf(),
        ensures
            match r {
                Err(f) => self.link_at(path@) == Err::<Option<Seq<char>>, Fault>(f),
                Ok(None) => self.link_at(path@) == Ok::<Option<Seq<char>>, Fault>(None),
                Ok(Some(t)) => self.link_at(path@) == Ok::<Option<Seq<char>>, Fault>(Some(t@)),
            },
    {
        if self.is_removed(path) {
            return Err(Fault::Sys(SysErrNo::ENOENT));
        }
        match self.files.mem.get_symlink(path) {
            Some(target) => {
                return Ok(Some(target));
            },
            None => {},
        }
        match self.ext4_kind(path) {
            Err(f) => Err(f),
            Ok(Some(Ext4NodeKind::Symlink)) => match self.files.vol.names.readlink_ext4(path) {
                Err(f) => Err(f),
                Ok(target) => Ok(Some(target)),
            },
            Ok(_) => Ok(None),
        }
    }

    /// Where a path leads once all links there are followed, and how many links
    /// have then been followed.
    pub open spec fn links_followed(&self, current: Seq<char>, followed: nat) -> Result<
        (Seq<char>, nat),
        Fault,
    >
        decreases MAX_FOLLOWS + 1 - followed,
    {
        match self.link_at(current) {
            Err(f) => Err(f),
            Ok(None) => Ok((current, followed)),
            Ok(Some(target)) => if followed >= MAX_FOLLOWS {
                Err(Fault::Sys(SysErrNo::ELOOP))
            } else {
                self.links_followed(link_target(current, target), followed + 1)
            },
        }
    }

    fn follow_links(&self, start: String, followed: usize) -> (r: Result<(String, usize), Fault>)
        requires
            self.wf(),
            followed <= MAX_FOLLOWS,
        ensures
            match r {
                Err(f) => self.links_followed(start@, followed as nat) == Err::<
                    (Seq<char>, nat),
                    Fault,
                >(f),
                Ok((end, n)) => self.links_followed(start@, followed as nat) == Ok::<
                    (Seq<char>, nat),
                    Fault,
                >((end@, n as nat)) && n <= MAX_FOLLOWS,
            },
    {
        let ghost first = start@;
        let mut current = start;
        let mut n: usize = followed;
        loop
            invariant
                self.wf(),
                n <= MAX_FOLLOWS,
                first == start@,
                self.links_followed(first, followed as nat) == self.links_followed(
                    current@,
                    n as nat,
                ),
            decreases MAX_FOLLOWS - n,
        {
            match self.lookup_symlink_target(current.as_str()) {
                Err(f) => {
                    return Err(f);
                },
                Ok(None) => {
                    return Ok((current, n));
                },
                Ok(Some(target)) => {
                    if n >= MAX_FOLLOWS {
                        return Err(Fault::Sys(SysErrNo::ELOOP));
                    }
                    current = resolve_link_target(current.as_str(), target.as_str());
                    n = n + 1;
                },
            }
        }
    }

    /// The directory that names lead to, all links on the way being followed.
    pub open spec fn parents_followed<D: RawBlockDevice>(
        &self,
        dev: &D,
        names: Seq<Seq<char>>,
        current: Seq<char>,
        followed: nat,
        now: Timestamp,
    ) -> Result<Seq<char>, Fault>
        decreases names.len(),
    {
        if names.len() <= 1 {
            Ok(current)
        } else {
            match self.links_followed(pieced(current, names[0]), followed) {
                Err(f) => Err(f),
                Ok((here, n)) => match self.told(dev, here, false, now) {
                    Err(f) => Err(f),
                    Ok(meta) => if meta.kind != VfsNodeKind::Directory {
                        Err(Fault::Sys(SysErrNo::ENOTDIR))
                    } else {
                        self.parents_followed(dev, names.drop_first(), here, n, now)
                    },
                },
            }
        }
    }

    /// A path with all links in front of its end followed.
    pub open spec fn parents_resolved<D: RawBlockDevice>(
        &self,
        dev: &D,
        path: Seq<char>,
        now: Timestamp,
    ) -> Result<Seq<char>, Fault> {
        let names = parts_of(normalized(path));
        if names.len() <= 1 {
            Ok(normalized(path))
        } else {
            match self.parents_followed(dev, names, seq!['/'], 0, now) {
                Err(f) => Err(f),
                Ok(dir) => Ok(normalized(pieced(dir, names.last()))),
            }
        }
    }

    /// A path with all links in front of its end followed.
    pub fn resolve_parent_symlinks_for_lookup<D: RawBlockDevice>(
        &self,
        dev: &D,
        path: &str,
        now: Timestamp,
    ) -> (r: Result<String, Fault>)
        requires
            self.wf(),
        ensures
            match r {
                Ok(p) => self.parents_resolved(dev, path@, now) == Ok::<Seq<char>, Fault>(p@),
                Err(f) => self.parents_resolved(dev, path@, now) == Err::<Seq<char>, Fault>(f),
            },
    {
        let norm = normalize_path(path);
        let names = path_parts(norm.as_str());
        if names.len() <= 1 {
            return Ok(norm);
        }
        proof {
            reveal_strlit("/");
            assert("/"@ =~= seq!['/']);
        }
        let ghost all = texts(names@);
        let mut current: String = "/".to_owned();
        let mut followed: usize = 0;
        let mut i: usize = 0;
        assert(all.skip(0) =~= all);
        while names.len() - i > 1
            invariant
                self.wf(),
                all == texts(names@),
                all == parts_of(normalized(path@)),
                0 <= i < names@.len(),
                followed <= MAX_FOLLOWS,
                self.parents_followed(dev, all, seq!['/'], 0, now) == self.parents_followed(
                    dev,
                    all.skip(i as int),
                    current@,
                    followed as nat,
                    now,
                ),
            decreases names@.len() - i,
        {
            assert(all.skip(i as int)[0] == names@[i as int]@);
            assert(all.skip(i as int).drop_first() =~= all.skip(i + 1));
            let next = piece_path(current.as_str(), names[i].as_str());
            match self.follow_links(next, followed) {
                Err(f) => {
                    return Err(f);
                },
                Ok((here, n)) => {
                    current = here;
                    followed = n;
                },
            }
            match self.metadata(dev, current.as_str(), false, now) {
                Err(f) => {
                    return Err(f);
                },
                Ok(meta) => {
                    if meta.kind != VfsNodeKind::Directory {
                        return Err(Fault::Sys(SysErrNo::ENOTDIR));
                    }
                },
            }
            i = i + 1;
        }
        let last: usize = names.len() - 1;
        assert(all.last() == names@[last as int]@);
        let whole = piece_path(current.as_str(), names[last].as_str());
        Ok(normalize_path(whole.as_str()))
    }

    /// What is told of a path to a task that looks it up.
    pub fn metadata_for_lookup<D: RawBlockDevice>(
        &self,
        dev: &D,
        path: &str,
        follow_symlink: bool,
        caller: &Caller,
    ) -> (r: Result<VfsMetadata, Fault>)
        requires
            self.wf(),
        ensures
            r == (match self.parents_resolved(dev, path@, caller.now) {
                Err(f) => Err::<VfsMetadata, Fault>(f),
                Ok(p) => match self.reachable(dev, p, CredentialIdentity::Filesystem, caller) {
                    Err(f) => Err(f),
                    Ok(_) => self.told(dev, p, follow_symlink, caller.now),
                },
            }),
    {
        let norm = match self.resolve_parent_symlinks_for_lookup(dev, path, caller.now) {
            Err(f) => {
                return Err(f);
            },
            Ok(norm) => norm,
        };
        match self.check_search_access(dev, norm.as_str(), CredentialIdentity::Filesystem, caller) {
            Err(f) => {
                return Err(f);
            },
            Ok(_) => {},
        }
        self.metadata(dev, norm.as_str(), follow_symlink, caller.now)
    }

    /// What is told of an open file.
    pub open spec fn fd_told<D: RawBlockDevice>(
        &self,
        dev: &D,
        file: &FileDescriptor,
        now: Timestamp,
    ) -> Result<VfsMetadata, Fault> {
        match *file {
            FileDescriptor::Stdin => Ok(
                synthetic("stdin"@, VfsNodeKind::Other, S_IFIFO | 0o444, 0, 1, now),
            ),
            FileDescriptor::Stdout => Ok(
                synthetic("stdout"@, VfsNodeKind::Other, S_IFIFO | 0o222, 0, 1, now),
            ),
            FileDescriptor::Stderr => Ok(
                synthetic("stderr"@, VfsNodeKind::Other, S_IFIFO | 0o222, 0, 1, now),
            ),
            FileDescriptor::MemFile(h) => Ok(
                if h.linked && self.files.mem@.file_index(normalized(h.name@)) is Some {
                    self.mem_file_told(normalized(h.name@), now)
                } else {
                    self.handle_told(h, now)
                },
            ),
            FileDescriptor::MemDir { path, entries, .. } => Ok(
                node_told(
                    path@,
                    VfsNodeKind::Directory,
                    S_IFDIR,
                    entries@.len() as u64,
                    self.files.mem@.meta_or(normalized(path@), 0o755),
                    1,
                    now,
                ),
            ),
            FileDescriptor::Ext4Regular { ino, .. } => match self.files.vol.told(ino) {
                Err(f) => Err(f),
                Ok(meta) => Ok(from_ext4(meta)),
            },
            FileDescriptor::Ext4Dir { ino, .. } => match self.files.vol.told(ino) {
                Err(f) => Err(f),
                Ok(meta) => Ok(from_ext4(meta)),
            },
            FileDescriptor::Path { host_path, .. } => self.told(dev, host_path@, false, now),
            FileDescriptor::LoopControl => Ok(
                device_told(
                    "/dev/loop-control"@,
                    S_IFCHR | 0o666,
                    DEV_LOOP_CONTROL_MAJOR,
                    DEV_LOOP_CONTROL_MINOR,
                    now,
                ),
            ),
            FileDescriptor::LoopDevice { index, .. } => Ok(
                device_told(
                    "/dev/loop"@ + decimal(index as nat),
                    S_IFBLK | 0o600,
                    DEV_LOOP_MAJOR,
                    index as u32,
                    now,
                ),
            ),
            FileDescriptor::PipeRead { .. } => Ok(
                synthetic("pipe-read"@, VfsNodeKind::Other, S_IFIFO | 0o444, 0, 1, now),
            ),
            FileDescriptor::PipeWrite { .. } => Ok(
                synthetic("pipe-write"@, VfsNodeKind::Other, S_IFIFO | 0o222, 0, 1, now),
            ),
            FileDescriptor::Socket { .. } => Ok(
                synthetic("socket"@, VfsNodeKind::Other, S_IFSOCK | 0o666, 0, 1, now),
            ),
            FileDescriptor::EventFd { .. } => Err(Fault::Sys(SysErrNo::EINVAL)),
            FileDescriptor::Epoll { .. } => Err(Fault::Sys(SysErrNo::EINVAL)),
        }
    }

    /// What is told of an open file.
    pub fn metadata_for_fd<D: RawBlockDevice>(
        &self,
        dev: &D,
        file: &FileDescriptor,
        now: Timestamp,
    ) -> (r: Result<VfsMetadata, Fault>)
        requires
            self.wf(),
            file.wf(&self.files.channels),
        ensures
            r == self.fd_told(dev, file, now),
    {
        match file {
            FileDescriptor::Stdin => Ok(
                synthetic_metadata("stdin", VfsNodeKind::Other, S_IFIFO | 0o444, 0, 1, now),
            ),
            FileDescriptor::Stdout => Ok(
                synthetic_metadata("stdout", VfsNodeKind::Other, S_IFIFO | 0o222, 0, 1, now),
            ),
            FileDescriptor::Stderr => Ok(
                synthetic_metadata("stderr", VfsNodeKind::Other, S_IFIFO | 0o222, 0, 1, now),
            ),
            FileDescriptor::MemFile(h) => {
                if h.linked {
                    match self.metadata_from_mem_file(h.name.as_str(), now) {
                        Some(meta) => {
                            return Ok(meta);
                        },
                        None => {},
                    }
                }
                Ok(self.metadata_from_mem_fd(h, now))
            },
            FileDescriptor::MemDir { path, entries, .. } => {
                let node = recorded(&self.files.mem, path.as_str(), 0o755);
                Ok(
                    metadata_for_mem_node(
                        path.as_str(),
                        VfsNodeKind::Directory,
                        S_IFDIR,
                        entries.len() as u64,
                        node,
                        1,
                        now,
                    ),
                )
            },
            FileDescriptor::Ext4Regular { ino, .. } => match self.files.vol.metadata_by_ino(*ino) {
                Err(f) => Err(f),
                Ok(meta) => Ok(metadata_from_ext4(meta)),
            },
            FileDescriptor::Ext4Dir { ino, .. } => match self.files.vol.metadata_by_ino(*ino) {
                Err(f) => Err(f),
                Ok(meta) => Ok(metadata_from_ext4(meta)),
            },
            FileDescriptor::Path { host_path, .. } => self.metadata(
                dev,
                host_path.as_str(),
                false,
                now,
            ),
            FileDescriptor::LoopControl => Ok(
                metadata_for_char_device(
                    "/dev/loop-control",
                    DEV_LOOP_CONTROL_MAJOR,
                    DEV_LOOP_CONTROL_MINOR,
                    now,
                ),
            ),
            FileDescriptor::LoopDevice { index, .. } => {
                let path = loop_device_path(*index);
                Ok(
                    metadata_for_block_device_number(
                        path.as_str(),
                        DEV_LOOP_MAJOR,
                        *index as u32,
                        now,
                    ),
                )
            },
            FileDescriptor::PipeRead { .. } => Ok(
                synthetic_metadata("pipe-read", VfsNodeKind::Other, S_IFIFO | 0o444, 0, 1, now),
            ),
            FileDescriptor::PipeWrite { .. } => Ok(
                synthetic_metadata("pipe-write", VfsNodeKind::Other, S_IFIFO | 0o222, 0, 1, now),
            ),
            FileDescriptor::Socket { .. } => Ok(
                synthetic_metadata("socket", VfsNodeKind::Other, S_IFSOCK | 0o666, 0, 1, now),
            ),
            FileDescriptor::EventFd { .. } => Err(Fault::Sys(SysErrNo::EINVAL)),
            FileDescriptor::Epoll { .. } => Err(Fault::Sys(SysErrNo::EINVAL)),
        }
    }

    /// Whether a task may use an open file in some ways.
    pub open spec fn fd_usable<D: RawBlockDevice>(
        &self,
        dev: &D,
        file: &FileDescriptor,
        access_mode: usize,
        identity: CredentialIdentity,
        caller: &Caller,
    ) -> Result<(), Fault> {
        match self.fd_told(dev, file, caller.now) {
            Err(f) => Err(f),
            Ok(meta) => if permitted(&meta, &caller.cred, access_mode, identity) {
                Ok(())
            } else {
                Err(Fault::Sys(SysErrNo::EACCES))
            },
        }
    }

    /// Whether a task may use an open file, by its real identity.
    pub fn check_fd_access<D: RawBlockDevice>(
        &self,
        dev: &D,
        file: &FileDescriptor,
        access_mode: usize,
        caller: &Caller,
    ) -> (r: Result<(), Fault>)
        requires
            self.wf(),
            file.wf(&self.files.channels),
        ensures
            r == self.fd_usable(dev, file, access_mode, CredentialIdentity::Real, caller),
    {
        self.check_fd_access_with_effective(dev, file, access_mode, false, caller)
    }

    /// Whether a task may use an open file, by its effective or its real
    /// identity.
    pub fn check_fd_access_with_effective<D: RawBlockDevice>(
        &self,
        dev: &D,
        file: &FileDescriptor,
        access_mode: usize,
        effective: bool,
        caller: &Caller,
    ) -> (r: Result<(), Fault>)
        requires
            self.wf(),
            file.wf(&self.files.channels),
        ensures
            r == self.fd_usable(
                dev,
                file,
                access_mode,
                if effective {
                    CredentialIdentity::Effective
                } else {
                    CredentialIdentity::Real
                },
                caller,
            ),
    {
        match self.metadata_for_fd(dev, file, caller.now) {
            Err(f) => Err(f),
            Ok(meta) => match check_metadata_access_with_identity(
                &meta,
                &caller.cred,
                access_mode,
                CredentialIdentity::from_effective_flag(effective),
            ) {
                Ok(_) => Ok(()),
                Err(e) => Err(Fault::Sys(e)),
            },
        }
    }
}

} // verus!
