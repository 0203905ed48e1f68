//! What exists in the tree, what files hold, and what is told of file systems.
use vstd::prelude::*;

use crate::aged::AgedModel;
use crate::errno::SysErrNo;
use crate::fs::block_dev::device::{BlockRange, RawBlockDevice};
use crate::fs::content::is_elf;
use crate::fs::ext4::access::ImageSource;
use crate::fs::ext4::mount::FilesModel;
use crate::fs::ext4::types::{Ext4NodeKind, Ext4StatFs};
use crate::fs::ext4::volume::Fault;
use crate::fs::fd::descriptor::{FileDescriptor, Files};
use crate::fs::memfs::model::{distinct_bytes, target_bytes, MemFsModel};
use crate::fs::memfs::ops::is_elf_content;
use crate::fs::path::{
    apply_root, file_name, last_piece, normalize_path, normalized, rooted, split,
};
use crate::fs::vfat::VfatVolume;
use crate::fs::vfs::tree::{path_is_under, under, Vfs};
use crate::fs::vfs::types::VfsStatFs;
use crate::task::Timestamp;
use crate::text::{concat, has_prefix, starts_with, str_eq};
use crate::textmap::listing;

verus! {

/// What a file holds, or where that is to be had.
pub enum FileSource {
    Bytes(Vec<u8>),
    Image(ImageSource),
}

/// What is known of the contents of a file before the volume is asked.
pub enum ReadingModel {
    Nothing,
    Bytes(Seq<u8>),
    Volume(Seq<char>),
}

/// What is known of an executable before the volume is asked.
pub enum Executable {
    /// This is it, if there is one.
    Known(Option<Vec<u8>>),
    /// The volume has to be asked for a path; `overlay` lies above it.
    Volume { overlay: Option<Vec<u8>>, path: String },
}

impl VfatVolume {
    /// What a file of the volume holds.
    pub open spec fn held<D: RawBlockDevice>(&self, dev: &D, range: &BlockRange, path: Seq<char>) -> Result<
        Seq<u8>,
        SysErrNo,
    > {
        match self.found(dev, range, path) {
            Err(e) => Err(e),
            Ok(entry) => if entry.is_dir {
                Err(SysErrNo::EISDIR)
            } else if entry.cluster < 2 || entry.size == 0 {
                Ok(Seq::empty())
            } else {
                match self.chain_bytes(dev, range, entry.cluster, 0) {
                    Err(e) => Err(e),
                    Ok(data) => Ok(
                        if data.len() > entry.size {
                            data.take(entry.size as int)
                        } else {
                            data
                        },
                    ),
                }
            },
        }
    }
}

/// The last name of a path, or the path where it has none.
pub open spec fn base_name(path: Seq<char>) -> Seq<char> {
    if last_piece(split(path)).len() == 0 {
        path
    } else {
        last_piece(split(path))
    }
}

fn basename(path: &str) -> (r: String)
    ensures
        r@ == base_name(path@),
{
    let name = file_name(path);
    if name.as_str().is_empty() {
        path.to_owned()
    } else {
        name
    }
}

/// Which of two executables is used: an image on the volume wins over what is
/// none, and what lies above it wins where neither is an image.
pub open spec fn chosen(overlay: Option<Seq<u8>>, below: Option<Seq<u8>>) -> Option<Seq<u8>> {
    match below {
        Some(data) => if is_elf(data) || overlay is None {
            Some(data)
        } else {
            overlay
        },
        None => overlay,
    }
}

/// The bytes of contents that may not be there.
pub open spec fn bytes_of(data: Option<Vec<u8>>) -> Option<Seq<u8>> {
    match data {
        Some(v) => Some(v@),
        None => None,
    }
}

/// Which of two executables is used.
pub fn choose_executable(overlay: Option<Vec<u8>>, below: Option<Vec<u8>>) -> (r: Option<Vec<u8>>)
    ensures
        bytes_of(r) == chosen(bytes_of(overlay), bytes_of(below)),
{
    match below {
        Some(data) => {
            if overlay.is_none() || is_elf_content(data.as_slice()) {
                Some(data)
            } else {
                overlay
            }
        },
        None => overlay,
    }
}

/// The places where an interpreter is looked for, in order, each as the task
/// sees it and as it lies in the tree.
pub open spec fn interpreter_places(root: Seq<char>, interp: Seq<char>, loongarch: bool) -> Seq<
    (Seq<char>, Seq<char>),
> {
    let asked = normalized(interp);
    let name = base_name(asked);
    let lib = normalized("/lib/"@ + name);
    let first = seq![(asked, rooted(root, asked))];
    let second = if has_prefix(asked, "/lib64/"@) {
        seq![(lib, rooted(root, lib))]
    } else {
        Seq::empty()
    };
    let third = if loongarch && name == "ld-linux-loongarch-lp64d.so.1"@ {
        seq![(lib, normalized("/glibc/lib/"@ + name))]
    } else {
        Seq::empty()
    };
    let libc = normalized("/lib/libc.so"@);
    first + second + third + seq![(libc, rooted(root, libc))]
}

/// The texts of pairs.
pub open spec fn pair_views(pairs: Seq<(String, String)>) -> Seq<(Seq<char>, Seq<char>)> {
    pairs.map_values(|p: (String, String)| (p.0@, p.1@))
}

/// The places where an interpreter is looked for, in order: where it is asked
/// for, then in the library directories, and at last the C library itself.
pub fn interpreter_candidates(root: &str, interp: &str, loongarch: bool) -> (r: Vec<
    (String, String),
>)
    ensures
        pair_views(r@) == interpreter_places(root@, interp@, loongarch),
{
    let mut places: Vec<(String, String)> = Vec::new();
    let asked = normalize_path(interp);
    let name = basename(asked.as_str());
    let lib = normalize_path(concat("/lib/", name.as_str()).as_str());
    let host = apply_root(root, asked.as_str());
    let in_lib64 = starts_with(asked.as_str(), "/lib64/");
    let loader = str_eq(name.as_str(), "ld-linux-loongarch-lp64d.so.1");
    let ghost mut all = seq![(asked@, host@)];
    places.push((asked, host));
    assert(pair_views(places@) =~= all);
    if in_lib64 {
        let host = apply_root(root, lib.as_str());
        proof {
            all = all.push((lib@, host@));
        }
        places.push((lib.clone(), host));
        assert(pair_views(places@) =~= all);
    }
    if loongarch && loader {
        let host = normalize_path(concat("/glibc/lib/", name.as_str()).as_str());
        proof {
            all = all.push((lib@, host@));
        }
        places.push((lib.clone(), host));
        assert(pair_views(places@) =~= all);
    }
    let libc = normalize_path("/lib/libc.so");
    let host = apply_root(root, libc.as_str());
    proof {
        all = all.push((libc@, host@));
    }
    places.push((libc, host));
    assert(pair_views(places@) =~= all);
    assert(all =~= interpreter_places(root@, interp@, loongarch));
    places
}

/// What is known of an interpreter once some places were looked at.
pub enum Interpreter {
    /// It was found: its path as the task sees it and as it lies in the tree, and
    /// what is run.
    Found(String, String, Vec<u8>),
    /// The executable at this path of the tree has to be looked for next.
    Look(String),
    /// It is nowhere.
    Missing,
}

/// Whether nothing was found at the first places.
pub open spec fn none_found(found: Seq<Option<Vec<u8>>>, n: int) -> bool {
    forall|i: int| 0 <= i < n ==> (#[trigger] found[i]) is None
}

/// Whether an interpreter was found at a place and at none before it.
pub open spec fn first_found(found: Seq<Option<Vec<u8>>>, i: int) -> bool {
    0 <= i < found.len() && found[i] is Some && none_found(found, i)
}

/// The interpreter: the executable at the first of its places that has one.
/// `found` is what the places have, as far as they were looked at in order.
pub fn read_interpreter(
    root: &str,
    interp: &str,
    loongarch: bool,
    found: Vec<Option<Vec<u8>>>,
) -> (r: Interpreter)
    requires
        found@.len() <= interpreter_places(root@, interp@, loongarch).len(),
    ensures
        ({
            let places = interpreter_places(root@, interp@, loongarch);
            match r {
                Interpreter::Found(logical, host, data) => exists|i: int|
                    #![trigger first_found(found@, i)]
                    first_found(found@, i) && (logical@, host@) == places[i] && data
                        == found@[i]->0,
                Interpreter::Look(host) => none_found(found@, found@.len() as int) && found@.len()
                    < places.len() && host@ == places[found@.len() as int].1,
                Interpreter::Missing => none_found(found@, found@.len() as int) && found@.len()
                    == places.len(),
            }
        }),
{
    let places = interpreter_candidates(root, interp, loongarch);
    let ghost all = found@;
    let n: usize = found.len();
    let mut looked = found;
    let mut i: usize = 0;
    assert(pair_views(places@).len() == places@.len());
    while i < n
        invariant
            looked@ == all,
            all == found@,
            n == all.len(),
            0 <= i <= n,
            n <= places@.len(),
            pair_views(places@) == interpreter_places(root@, interp@, loongarch),
            none_found(all, i as int),
        decreases n - i,
    {
        if looked[i].is_some() {
            let data = looked.swap_remove(i);
            assert(first_found(all, i as int));
            assert(pair_views(places@)[i as int] == (places@[i as int].0@, places@[i as int].1@));
            match data {
                Some(data) => {
                    let logical = places[i].0.clone();
                    let host = places[i].1.clone();
                    assert(data == all[i as int]->0);
                    assert((logical@, host@) == interpreter_places(root@, interp@, loongarch)[i as int]);
                    return Interpreter::Found(logical, host, data);
                },
                None => {},
            }
        }
        i = i + 1;
    }
    if n < places.len() {
        assert(pair_views(places@)[n as int] == (places@[n as int].0@, places@[n as int].1@));
        return Interpreter::Look(places[n].1.clone());
    }
    Interpreter::Missing
}

/// An interpreter that is found at a place is the one, whatever the places
/// behind it have.
pub proof fn first_place_wins(found: Seq<Option<Vec<u8>>>, more: Seq<Option<Vec<u8>>>, i: int, j: int)
    requires
        first_found(found, i),
        first_found(found + more, j),
    ensures
        i == j,
{
    let all = found + more;
    assert(all[i] == found[i]);
    if j < i {
        assert(all[j] == found[j]);
    }
}

/// What is told of a FAT volume.
pub open spec fn fat_statfs() -> VfsStatFs {
    VfsStatFs {
        f_type: 0x4d44,
        f_bsize: 512,
        f_blocks: 0,
        f_bfree: 0,
        f_bavail: 0,
        f_files: 0,
        f_ffree: 0,
        f_namelen: 255,
        f_frsize: 512,
        f_flags: 1,
    }
}

fn vfat_statfs() -> (r: VfsStatFs)
    ensures
        r == fat_statfs(),
{
    VfsStatFs {
        f_type: 0x4d44,
        f_bsize: 512,
        f_blocks: 0,
        f_bfree: 0,
        f_bavail: 0,
        f_files: 0,
        f_ffree: 0,
        f_namelen: 255,
        f_frsize: 512,
        f_flags: 1,
    }
}

/// A number, or the greatest one that fits.
pub open spec fn capped(n: int) -> usize {
    if n > usize::MAX {
        usize::MAX
    } else {
        n as usize
    }
}

impl MemFsModel {
    /// How many bytes the files and links hold.
    pub open spec fn held_bytes(self) -> nat {
        distinct_bytes(self.files, self.backings) + target_bytes(
            listing(self.symlinks.dom()),
            self.symlinks,
        )
    }

    /// How many nodes there are.
    pub open spec fn node_count(self) -> nat {
        self.files.len() + self.dirs.len() + self.symlinks.dom().len() + self.specials.dom().len()
    }

    /// What is told of the in-memory file system: the blocks that are used, and
    /// room for 4096 blocks and 1024 nodes more.
    pub open spec fn statfs(self) -> VfsStatFs {
        let used = if self.held_bytes() <= 4096 {
            1int
        } else {
            (self.held_bytes() as int + 4095) / 4096
        };
        let total = capped(used + 4096);
        let nodes = if self.node_count() < 1 {
            1int
        } else {
            capped(self.node_count() as int) as int
        };
        VfsStatFs {
            f_type: 0x0102_1994,
            f_bsize: 4096,
            f_blocks: total,
            f_bfree: (total - used) as usize,
            f_bavail: (total - used) as usize,
            f_files: capped(nodes + 1024),
            f_ffree: 1024,
            f_namelen: 255,
            f_frsize: 4096,
            f_flags: 0,
        }
    }
}

/// What is told of a mounted volume.
pub open spec fn volume_statfs(info: Ext4StatFs) -> VfsStatFs {
    VfsStatFs {
        f_type: 0xef53,
        f_bsize: info.block_size,
        f_blocks: info.blocks,
        f_bfree: info.free_blocks,
        f_bavail: info.free_blocks,
        f_files: info.files,
        f_ffree: info.free_files,
        f_namelen: info.max_name_len,
        f_frsize: info.block_size,
        f_flags: 0,
    }
}

impl Vfs {
    /// Whether something that is no directory lies at a path.
    pub open spec fn has_file<D: RawBlockDevice>(&self, dev: &D, path: Seq<char>) -> Result<
        bool,
        Fault,
    > {
        if self.removed(path) {
            Ok(false)
        } else {
            match self.fat_told(dev, path) {
                Some(told) => Ok(told is Ok && !told->Ok_0.is_dir),
                None => if self.mem_other_at(path) {
                    Ok(true)
                } else if self.in_tmpfs(path) {
                    Ok(false)
                } else {
                    self.ext4_other_at(path)
                },
            }
        }
    }

    /// Whether something that is no directory lies at a path.
    pub fn file_exists<D: RawBlockDevice>(&self, dev: &D, name: &str) -> (r: Result<bool, Fault>)
        requires
            self.wf(),
        ensures
            r == self.has_file(dev, name@),
    {
        if self.is_removed(name) {
            return Ok(false);
        }
        match self.vfat_metadata_for_path(dev, name) {
            Some(Ok(meta)) => {
                return Ok(!meta.is_dir);
            },
            Some(Err(_)) => {
                return Ok(false);
            },
            None => {},
        }
        if self.mem_has_other(name) {
            return Ok(true);
        }
        if self.is_tmpfs_path(name) {
            return Ok(false);
        }
        self.ext4_has_other(name)
    }

    /// Whether a directory lies at a path.
    pub open spec fn has_dir<D: RawBlockDevice>(&self, dev: &D, path: Seq<char>) -> Result<
        bool,
        Fault,
    > {
        if self.removed(path) {
            Ok(false)
        } else {
            match self.fat_told(dev, path) {
                Some(told) => Ok(told is Ok && told->Ok_0.is_dir),
                None => if self.files.mem@.has_dir(normalized(path)) {
                    Ok(true)
                } else if self.in_tmpfs(path) {
                    Ok(false)
                } else {
                    self.ext4_dir_at(path)
                },
            }
        }
    }

    /// Whether a directory lies at a path.
    pub fn dir_exists<D: RawBlockDevice>(&self, dev: &D, name: &str) -> (r: Result<bool, Fault>)
        requires
            self.wf(),
        ensures
            r == self.has_dir(dev, name@),
    {
        if self.is_removed(name) {
            return Ok(false);
        }
        match self.vfat_metadata_for_path(dev, name) {
            Some(Ok(meta)) => {
                return Ok(meta.is_dir);
            },
            Some(Err(_)) => {
                return Ok(false);
            },
            None => {},
        }
        if self.files.mem.is_dir(name) {
            return Ok(true);
        }
        if self.is_tmpfs_path(name) {
            return Ok(false);
        }
        self.ext4_has_dir(name)
    }

    /// Whether anything lies at a path.
    pub open spec fn occupied<D: RawBlockDevice>(&self, dev: &D, path: Seq<char>) -> Result<
        bool,
        Fault,
    > {
        match self.has_file(dev, path) {
            Err(f) => Err(f),
            Ok(true) => Ok(true),
            Ok(false) => self.has_dir(dev, path),
        }
    }

    /// Whether anything lies at a path.
    pub fn is_occupied<D: RawBlockDevice>(&self, dev: &D, path: &str) -> (r: Result<bool, Fault>)
        requires
            self.wf(),
        ensures
            r == self.occupied(dev, path@),
    {
        match self.file_exists(dev, path) {
            Err(f) => Err(f),
            Ok(true) => Ok(true),
            Ok(false) => self.dir_exists(dev, path),
        }
    }

    /// What has been taken away does not exist.
    pub proof fn removed_names_are_gone<D: RawBlockDevice>(
        &self,
        dev: &D,
        path: Seq<char>,
        follow: bool,
        now: Timestamp,
    )
        requires
            self.removed(path),
        ensures
            self.occupied(dev, path) == Ok::<bool, Fault>(false),
            self.told(dev, path, follow, now) == Err::<crate::fs::vfs::types::VfsMetadata, Fault>(
                Fault::Sys(SysErrNo::ENOENT),
            ),
    {
        reveal(Vfs::told);
    }

    /// What is known of the contents of a file before the volume is asked.
    pub open spec fn reading<D: RawBlockDevice>(&self, dev: &D, path: Seq<char>) -> Result<
        ReadingModel,
        Fault,
    > {
        let m = self.files.mem@;
        if self.removed(path) {
            Ok(ReadingModel::Nothing)
        } else {
            match self.ending(path, false) {
                Err(Fault::Need(load)) => Err(Fault::Need(load)),
                Err(Fault::Sys(_)) => Ok(ReadingModel::Nothing),
                Ok(end) => if self.removed(end) {
                    Ok(ReadingModel::Nothing)
                } else {
                    match self.fat_at(end) {
                        Some((volume, range, inner)) => Ok(
                            match volume.held(dev, &range, inner) {
                                Ok(data) => ReadingModel::Bytes(data),
                                Err(_) => ReadingModel::Nothing,
                            },
                        ),
                        None => if m.file_index(normalized(end)) is Some {
                            Ok(ReadingModel::Bytes(m.backing_of(normalized(end)).content))
                        } else if self.in_tmpfs(end) {
                            Ok(ReadingModel::Nothing)
                        } else {
                            Ok(ReadingModel::Volume(end))
                        },
                    }
                },
            }
        }
    }

    /// Whether the contents of a file were found, and where.
    pub open spec fn file_read<D: RawBlockDevice>(
        &self,
        was: &Self,
        dev: &D,
        name: Seq<char>,
        r: Result<Option<FileSource>, Fault>,
    ) -> bool {
        &&& (*self == (Vfs {
                files: Files { vol: self.files.vol, ..was.files },
                ..*was
            }))
        &&& (self.files.vol.same_names(&was.files.vol))
        &&& (self.files.vol.files() == (match was.reading(dev, name) {
                Ok(ReadingModel::Volume(end)) => FilesModel {
                    image_counts: was.files.vol.image_counts(end),
                    ..was.files.vol.files()
                },
                _ => was.files.vol.files(),
            }))
        &&& (match was.reading(dev, name) {
                Err(f) => r == Err::<Option<FileSource>, Fault>(f),
                Ok(ReadingModel::Nothing) => r == Ok::<Option<FileSource>, Fault>(None),
                Ok(ReadingModel::Bytes(data)) => match r {
                    Ok(Some(FileSource::Bytes(v))) => v@ == data,
                    _ => false,
                },
                Ok(ReadingModel::Volume(end)) => match r {
                    Err(Fault::Need(load)) => was.files.vol.image_found(end, Err(load)),
                    Err(Fault::Sys(_)) => false,
                    Ok(None) => was.files.vol.image_found(end, Ok(None)),
                    Ok(Some(FileSource::Image(source))) => was.files.vol.image_found(
                        end,
                        Ok(Some(source)),
                    ),
                    Ok(Some(FileSource::Bytes(_))) => false,
                },
            })
    }

    /// What the file at a path holds, or where that is to be had; `None` where
    /// there is no file.
    pub fn read_file<D: RawBlockDevice>(&mut self, dev: &D, name: &str) -> (r: Result<
        Option<FileSource>,
        Fault,
    >)
        requires
            old(self).wf(),
        ensures
            final(self).wf(),
            final(self).file_read(old(self), dev, name@, r),
    {
        if self.is_removed(name) {
            return Ok(None);
        }
        let end = match self.resolve_final_symlink(name, false) {
            Err(Fault::Need(load)) => {
                return Err(Fault::Need(load));
            },
            Err(Fault::Sys(_)) => {
                return Ok(None);
            },
            Ok(end) => end,
        };
        if self.is_removed(end.as_str()) {
            return Ok(None);
        }
        match self.mounted_vfat_backend(end.as_str()) {
            Some((volume, range, inner)) => {
                return match volume.read_file(dev, range, inner.as_str()) {
                    Ok(data) => Ok(Some(FileSource::Bytes(data))),
                    Err(_) => Ok(None),
                };
            },
            None => {},
        }
        match self.files.mem.get_file(end.as_str()) {
            Some(file) => {
                return Ok(Some(FileSource::Bytes(file.to_vec(&self.files.mem))));
            },
            None => {},
        }
        if self.is_tmpfs_path(end.as_str()) {
            return Ok(None);
        }
        match self.files.vol.slurp_regular_file(end.as_str()) {
            Err(load) => Err(Fault::Need(load)),
            Ok(None) => Ok(None),
            Ok(Some(source)) => Ok(Some(FileSource::Image(source))),
        }
    }

    /// What is known of the executable at a path before the volume is asked:
    /// an image in memory is used; other contents in memory are used where the
    /// volume has no image.
    pub open spec fn executable<D: RawBlockDevice>(&self, dev: &D, path: Seq<char>, r: Executable) -> bool {
        let m = self.files.mem@;
        if self.removed(path) {
            r == Executable::Known(None)
        } else {
            match self.ending(path, false) {
                Err(_) => r == Executable::Known(None),
                Ok(end) => if self.removed(end) {
                    r == Executable::Known(None)
                } else {
                    match self.fat_at(end) {
                        Some((volume, range, inner)) => match volume.held(dev, &range, inner) {
                            Ok(data) => if is_elf(data) {
                                r matches Executable::Known(Some(v)) && v@ == data
                            } else {
                                r == Executable::Known(None)
                            },
                            Err(_) => r == Executable::Known(None),
                        },
                        None => {
                            let n = normalized(end);
                            let overlay = if m.file_index(n) is Some {
                                Some(m.backing_of(n).content)
                            } else {
                                None
                            };
                            if (overlay is Some && is_elf(overlay->0)) || self.in_tmpfs(end) {
                                r matches Executable::Known(v) && bytes_of(v) == overlay
                            } else {
                                r matches Executable::Volume { overlay: o, path: p } && bytes_of(o)
                                    == overlay && p@ == end
                            }
                        },
                    }
                },
            }
        }
    }

    /// What is known of the executable at a path before the volume is asked.
    pub fn read_executable_file<D: RawBlockDevice>(&self, dev: &D, name: &str) -> (r: Result<
        Executable,
        Fault,
    >)
        requires
            self.wf(),
        ensures
            match r {
                Err(f) => !self.removed(name@) && f is Need && self.ending(name@, false) == Err::<
                    Seq<char>,
                    Fault,
                >(f),
                Ok(x) => self.executable(dev, name@, x) && (self.removed(name@) || !(self.ending(
                    name@,
                    false,
                ) matches Err(f) && f is Need)),
            },
    {
        if self.is_removed(name) {
            return Ok(Executable::Known(None));
        }
        let end = match self.resolve_final_symlink(name, false) {
            Err(Fault::Need(load)) => {
                return Err(Fault::Need(load));
            },
            Err(Fault::Sys(_)) => {
                return Ok(Executable::Known(None));
            },
            Ok(end) => end,
        };
        if self.is_removed(end.as_str()) {
            return Ok(Executable::Known(None));
        }
        match self.mounted_vfat_backend(end.as_str()) {
            Some((volume, range, inner)) => {
                return match volume.read_file(dev, range, inner.as_str()) {
                    Ok(data) => if is_elf_content(data.as_slice()) {
                        Ok(Executable::Known(Some(data)))
                    } else {
                        Ok(Executable::Known(None))
                    },
                    Err(_) => Ok(Executable::Known(None)),
                };
            },
            None => {},
        }
        let overlay: Option<Vec<u8>> = match self.files.mem.get_file(end.as_str()) {
            Some(file) => Some(file.to_vec(&self.files.mem)),
            None => None,
        };
        let image = match &overlay {
            Some(data) => is_elf_content(data.as_slice()),
            None => false,
        };
        if image || self.is_tmpfs_path(end.as_str()) {
            return Ok(Executable::Known(overlay));
        }
        Ok(Executable::Volume { overlay, path: end })
    }

    /// Whether a path lies on the volume.
    pub open spec fn on_volume(&self, path: Seq<char>) -> Result<bool, Fault> {
        if !self.files.vol.names.mounted || self.in_tmpfs(path) {
            Ok(false)
        } else {
            match self.kind_at(path) {
                Err(f) => Err(f),
                Ok(Some(_)) => Ok(true),
                Ok(None) => Ok(
                    exists|i: int|
                        0 <= i < self.mounts@.len() && (#[trigger] self.mounts@[i]).fstype@
                            == "ext4"@ && under(path, self.mounts@[i].host_target@),
                ),
            }
        }
    }

    /// Whether a path lies on the volume.
    pub fn path_uses_ext4(&self, path: &str) -> (r: Result<bool, Fault>)
        requires
            self.wf(),
        ensures
            r == self.on_volume(path@),
    {
        if !self.files.vol.names.mounted || self.is_tmpfs_path(path) {
            return Ok(false);
        }
        match self.ext4_kind(path) {
            Err(f) => {
                return Err(f);
            },
            Ok(Some(_)) => {
                return Ok(true);
            },
            Ok(None) => {},
        }
        let mut i: usize = 0;
        while i < self.mounts.len()
            invariant
                self.files.vol.names.mounted,
                !self.in_tmpfs(path@),
                self.kind_at(path@) == Ok::<Option<Ext4NodeKind>, Fault>(None),
                0 <= i <= self.mounts@.len(),
                forall|j: int|
                    0 <= j < i ==> !((#[trigger] self.mounts@[j]).fstype@ == "ext4"@ && under(
                        path@,
                        self.mounts@[j].host_target@,
                    )),
            decreases self.mounts@.len() - i,
        {
            if str_eq(self.mounts[i].fstype.as_str(), "ext4") && path_is_under(
                path,
                self.mounts[i].host_target.as_str(),
            ) {
                assert(self.mounts@[i as int].fstype@ == "ext4"@);
                return Ok(true);
            }
            i = i + 1;
        }
        Ok(false)
    }

    /// The number that tells what kind of file system the root is.
    pub fn filesystem_magic(&self) -> (r: Result<usize, Fault>)
        requires
            self.wf(),
        ensures
            r == (match self.on_volume("/"@) {
                Err(f) => Err::<usize, Fault>(f),
                Ok(true) => Ok(0xef53),
                Ok(false) => Ok(0x0102_1994),
            }),
    {
        match self.path_uses_ext4("/") {
            Err(f) => Err(f),
            Ok(true) => Ok(0xef53),
            Ok(false) => Ok(0x0102_1994),
        }
    }

    fn mem_statfs(&self) -> (r: VfsStatFs)
        requires
            self.wf(),
            self.files.mem@.held_bytes() <= usize::MAX,
        ensures
            r == self.files.mem@.statfs(),
    {
        let count: usize = self.files.mem.entry_count();
        let nodes: usize = if count < 1 {
            1
        } else {
            count
        };
        let bytes: usize = self.files.mem.total_file_bytes();
        let used: usize = if bytes <= 4096 {
            1
        } else if bytes % 4096 == 0 {
            bytes / 4096
        } else {
            bytes / 4096 + 1
        };
        let total: usize = used.saturating_add(4096);
        VfsStatFs {
            f_type: 0x0102_1994,
            f_bsize: 4096,
            f_blocks: total,
            f_bfree: total - used,
            f_bavail: total - used,
            f_files: nodes.saturating_add(1024),
            f_ffree: 1024,
            f_namelen: 255,
            f_frsize: 4096,
            f_flags: 0,
        }
    }

    /// What is told of the file system that serves the root or the volume.
    pub open spec fn present_statfs(&self, use_ext4: bool, info: Option<Ext4StatFs>) -> VfsStatFs {
        if use_ext4 && info is Some {
            volume_statfs(info->0)
        } else {
            self.files.mem@.statfs()
        }
    }

    fn current_statfs(&self, use_ext4: bool, info: Option<Ext4StatFs>) -> (r: VfsStatFs)
        requires
            self.wf(),
            self.files.mem@.held_bytes() <= usize::MAX,
        ensures
            r == self.present_statfs(use_ext4, info),
    {
        if use_ext4 {
            match info {
                Some(info) => {
                    return VfsStatFs {
                        f_type: 0xef53,
                        f_bsize: info.block_size,
                        f_blocks: info.blocks,
                        f_bfree: info.free_blocks,
                        f_bavail: info.free_blocks,
                        f_files: info.files,
                        f_ffree: info.free_files,
                        f_namelen: info.max_name_len,
                        f_frsize: info.block_size,
                        f_flags: 0,
                    };
                },
                None => {},
            }
        }
        self.mem_statfs()
    }

    /// What is told of the file system that a path lies in. `info` is what the
    /// volume tells of itself.
    pub fn statfs_for_path<D: RawBlockDevice>(
        &self,
        dev: &D,
        path: &str,
        info: Option<Ext4StatFs>,
        now: Timestamp,
    ) -> (r: Result<VfsStatFs, Fault>)
        requires
            self.wf(),
            self.files.mem@.held_bytes() <= usize::MAX,
        ensures
            r == (match self.told(dev, path@, true, now) {
                Err(f) => Err::<VfsStatFs, Fault>(f),
                Ok(_) => if self.in_tmpfs(path@) {
                    Ok(self.files.mem@.statfs())
                } else if self.fat_at(path@) is Some {
                    Ok(fat_statfs())
                } else {
                    match self.on_volume(path@) {
                        Err(f) => Err(f),
                        Ok(use_ext4) => Ok(self.present_statfs(use_ext4, info)),
                    }
                },
            }),
    {
        match self.metadata(dev, path, true, now) {
            Err(f) => {
                return Err(f);
            },
            Ok(_) => {},
        }
        if self.is_tmpfs_path(path) {
            return Ok(self.mem_statfs());
        }
        if self.mounted_vfat_backend(path).is_some() {
            return Ok(vfat_statfs());
        }
        match self.path_uses_ext4(path) {
            Err(f) => Err(f),
            Ok(use_ext4) => Ok(self.current_statfs(use_ext4, info)),
        }
    }

    /// The path by which the file system of an open file is found.
    pub open spec fn fd_path(file: &FileDescriptor) -> Option<Seq<char>> {
        match *file {
            FileDescriptor::MemFile(h) => Some(h.name@),
            FileDescriptor::MemDir { path, .. } => Some(path@),
            FileDescriptor::Path { host_path, .. } => Some(host_path@),
            _ => None,
        }
    }

    /// What is told of the file system that an open file lies in. `info` is
    /// what the volume tells of itself.
    pub fn statfs_for_fd<D: RawBlockDevice>(
        &self,
        dev: &D,
        file: &FileDescriptor,
        info: Option<Ext4StatFs>,
        now: Timestamp,
    ) -> (r: Result<VfsStatFs, Fault>)
        requires
            self.wf(),
            file.wf(&self.files.channels),
            self.files.mem@.held_bytes() <= usize::MAX,
        ensures
            r == (match self.fd_told(dev, file, now) {
                Err(f) => Err::<VfsStatFs, Fault>(f),
                Ok(_) => match Vfs::fd_path(file) {
                    None => Ok(
                        self.present_statfs(*file is Ext4Regular || *file is Ext4Dir, info),
                    ),
                    Some(path) => match self.on_volume(path) {
                        Err(f) => Err(f),
                        Ok(use_ext4) => if self.fat_at(path) is Some {
                            Ok(fat_statfs())
                        } else {
                            Ok(self.present_statfs(use_ext4, info))
                        },
                    },
                },
            }),
    {
        match self.metadata_for_fd(dev, file, now) {
            Err(f) => {
                return Err(f);
            },
            Ok(_) => {},
        }
        let path: Option<String> = match file {
            FileDescriptor::MemFile(h) => Some(h.name.clone()),
            FileDescriptor::MemDir { path, .. } => Some(path.clone()),
            FileDescriptor::Path { host_path, .. } => Some(host_path.clone()),
            _ => None,
        };
        match path {
            None => {
                let use_ext4 = match file {
                    FileDescriptor::Ext4Regular { .. } => true,
                    FileDescriptor::Ext4Dir { .. } => true,
                    _ => false,
                };
                Ok(self.current_statfs(use_ext4, info))
            },
            Some(path) => match self.path_uses_ext4(path.as_str()) {
                Err(f) => Err(f),
                Ok(use_ext4) => if self.mounted_vfat_backend(path.as_str()).is_some() {
                    Ok(vfat_statfs())
                } else {
                    Ok(self.current_statfs(use_ext4, info))
                },
            },
        }
    }

    /// The inode, if there is one, whose changes have to be written so that
    /// what was written to an open file lasts.
    pub fn sync_fd(&self, file: &FileDescriptor) -> (r: Result<Option<u32>, SysErrNo>)
        ensures
            r == (match *file {
                FileDescriptor::Ext4Regular { ino, .. } => Ok::<Option<u32>, SysErrNo>(Some(ino)),
                FileDescriptor::PipeRead { .. } => Err(SysErrNo::EINVAL),
                FileDescriptor::PipeWrite { .. } => Err(SysErrNo::EINVAL),
                _ => Ok(None),
            }),
    {
        file.sync()
    }

    /// Whether the clean pages of the volume were given up, and what came of it.
    pub open spec fn all_synced(
        &self,
        was: &Self,
        failed: Option<SysErrNo>,
        r: Result<(), SysErrNo>,
    ) -> bool {
        &&& (*self == (Vfs {
                files: Files { vol: self.files.vol, ..was.files },
                ..*was
            }))
        &&& (self.files.vol.same_names(&was.files.vol))
        &&& (self.files.vol.files() == (FilesModel {
                pages: AgedModel { entries: Map::empty(), ..was.files.vol.files().pages },
                runs: AgedModel { entries: Map::empty(), ..was.files.vol.files().runs },
                ..was.files.vol.files()
            }))
        &&& (r == (match failed {
                Some(e) => Err::<(), SysErrNo>(e),
                None => Ok(()),
            }))
    }

    /// What is left to do once all changed files have been written: `failed` is
    /// the first error that came up. Clean pages and runs of blocks are given up.
    pub fn sync_all(&mut self, failed: Option<SysErrNo>) -> (r: Result<(), SysErrNo>)
        requires
            old(self).wf(),
        ensures
            final(self).wf(),
            final(self).all_synced(old(self), failed, r),
    {
        self.files.vol.flush_all_cached(failed)
    }
}

} // verus!
