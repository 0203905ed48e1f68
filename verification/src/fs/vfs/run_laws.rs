//! What is run, and what is told of a file system as a whole.
use vstd::prelude::*;

use crate::fs::block_dev::device::RawBlockDevice;
use crate::fs::content::is_elf;
use crate::fs::ext4::types::Ext4StatFs;
use crate::fs::ext4::volume::Fault;
use crate::fs::fd::descriptor::VfsNodeKind;
use crate::fs::memfs::model::FileModel;
use crate::fs::node::{FileTimes, MemNodeMetadata, MemSpecialKind};
use crate::fs::path::{normalized, rooted};
use crate::fs::vfat::VfatMetadata;
use crate::fs::vfs::contents::{fat_statfs, interpreter_places, Executable};
use crate::fs::vfs::tree::Vfs;
use crate::fs::vfs::types::{from_vfat, special_told, VfsMetadata};
use crate::task::Timestamp;

verus! {

/// A file in memory that can be run is run whatever lies below it; one that cannot
/// be run is kept while the volume is asked; nothing is run of what was taken away.
pub proof fn memory_is_run_first<D: RawBlockDevice>(
    v: &Vfs,
    dev: &D,
    path: Seq<char>,
    end: Seq<char>,
    r: Executable,
)
    requires
        v.executable(dev, path, r),
        v.ending(path, false) == Ok::<Seq<char>, Fault>(end),
    ensures
        v.whiteouts@.contains_key(normalized(path)) || v.whiteouts@.contains_key(normalized(end))
            ==> r == Executable::Known(None),
        !v.whiteouts@.contains_key(normalized(path)) && !v.whiteouts@.contains_key(
            normalized(end),
        ) && v.fat_at(end) is None ==> {
            let m = v.files.mem@;
            let n = normalized(end);
            let held = m.backings[m.files[m.file_index(n)->0].backing as int].content;
            &&& m.file_index(n) is Some && (is_elf(held) || v.in_tmpfs(end)) ==> (r matches
                Executable::Known(Some(data)) && data@ == held)
            &&& m.file_index(n) is Some && !is_elf(held) && !v.in_tmpfs(end) ==> (r matches
                Executable::Volume { overlay: Some(data), path: p } && data@ == held && p@ == end)
            &&& m.file_index(n) is None && v.in_tmpfs(end) ==> r == Executable::Known(None)
            &&& m.file_index(n) is None && !v.in_tmpfs(end) ==> (r matches Executable::Volume {
                overlay: None,
                path: p,
            } && p@ == end)
        },
{
}

/// An executable is known by its first four bytes.
pub proof fn executables_are_known_by_their_mark(content: Seq<u8>)
    ensures
        is_elf(content) <==> content.len() >= 4 && content[0] == 0x7f && content[1] == 0x45
            && content[2] == 0x4c && content[3] == 0x46,
{
    if content.len() >= 4 {
        let mark = seq![0x7fu8, 0x45u8, 0x4cu8, 0x46u8];
        let head = content.take(4);
        assert(head[0] == content[0] && head[1] == content[1] && head[2] == content[2] && head[3]
            == content[3]);
        assert(mark[0] == 0x7f && mark[1] == 0x45 && mark[2] == 0x4c && mark[3] == 0x46);
        if content[0] == 0x7f && content[1] == 0x45 && content[2] == 0x4c && content[3] == 0x46 {
            assert(head =~= mark);
        }
    }
}

/// An interpreter is looked for where it was asked for first, below the root of
/// the program, and last under the name of the library that holds one.
pub proof fn interpreters_are_looked_for_where_asked(
    root: Seq<char>,
    interp: Seq<char>,
    loongarch: bool,
)
    ensures
        ({
            let places = interpreter_places(root, interp, loongarch);
            let libc = normalized("/lib/libc.so"@);
            &&& 2 <= places.len() <= 4
            &&& places[0] == (normalized(interp), rooted(root, normalized(interp)))
            &&& places[places.len() - 1] == (libc, rooted(root, libc))
            &&& !loongarch ==> places.len() <= 3 && forall|i: int|
                0 <= i < places.len() ==> (#[trigger] places[i]).1 == rooted(root, places[i].0)
        }),
{
}

/// The numbers of a volume are told as it has them; where there are none, those of
/// the memory. A FAT volume can only be read.
pub proof fn volumes_tell_their_numbers(v: &Vfs, info: Ext4StatFs)
    ensures
        ({
            let s = v.present_statfs(true, Some(info));
            &&& s.f_blocks == info.blocks && s.f_bfree == info.free_blocks && s.f_bavail
                == info.free_blocks
            &&& s.f_files == info.files && s.f_ffree == info.free_files
            &&& s.f_bsize == info.block_size && s.f_namelen == info.max_name_len
            &&& s.f_type == 0xef53
        }),
        v.present_statfs(false, Some(info)) == v.files.mem@.statfs(),
        v.present_statfs(true, None) == v.files.mem@.statfs(),
        fat_statfs().f_flags == 1 && fat_statfs().f_bfree == 0 && fat_statfs().f_ffree == 0,
{
}

/// The files that are shown are those in memory and those on the volume, without
/// those that were taken away.
pub proof fn shown_files_are_there(v: &Vfs, path: Seq<char>, i: int)
    ensures
        v.files_shown().contains(path) ==> !v.whiteouts@.contains_key(normalized(path)),
        0 <= i < v.files.mem@.files.len() && v.files.mem@.files[i].name == path
            && !v.whiteouts@.contains_key(normalized(path)) ==> v.files_shown().contains(path),
        v.files.vol.names.all_files().contains(path) && !v.whiteouts@.contains_key(
            normalized(path),
        ) ==> v.files_shown().contains(path),
        v.files_shown().contains(path) && !v.files.vol.names.all_files().contains(path)
            ==> exists|k: int|
            0 <= k < v.files.mem@.files.len() && (#[trigger] v.files.mem@.files[k]).name == path,
{
    let names = v.files.mem@.files.map_values(|f: FileModel| f.name);
    if 0 <= i < v.files.mem@.files.len() {
        assert(names[i] == v.files.mem@.files[i].name);
    }
    if names.contains(path) {
        let k = choose|k: int| 0 <= k < names.len() && names[k] == path;
        assert(v.files.mem@.files[k].name == path);
    }
}

/// A special node tells what it is, the permissions that were set and, if it is a
/// device, its numbers.
pub proof fn special_nodes_tell_what_they_are(
    name: Seq<char>,
    node: MemNodeMetadata,
    now: Timestamp,
    major: u32,
    minor: u32,
)
    ensures
        ({
            let fifo = special_told(name, MemSpecialKind::Fifo, node, now);
            let socket = special_told(name, MemSpecialKind::Socket, node, now);
            let chars = special_told(name, MemSpecialKind::CharDevice { major, minor }, node, now);
            let block = special_told(name, MemSpecialKind::BlockDevice { major, minor }, node, now);
            &&& fifo.mode & 0o170000 == 0o010000 && fifo.rdev_major == 0 && fifo.rdev_minor == 0
            &&& socket.mode & 0o170000 == 0o140000 && socket.rdev_major == 0
            &&& chars.mode & 0o170000 == 0o020000 && chars.rdev_major == major && chars.rdev_minor
                == minor
            &&& block.mode & 0o170000 == 0o060000 && block.rdev_major == major && block.rdev_minor
                == minor
            &&& block.mode & 0o7777 == node.mode & 0o7777
            &&& fifo.uid == node.uid && fifo.gid == node.gid && fifo.kind == VfsNodeKind::Other
        }),
{
    let m = node.mode;
    assert((0o010000u32 | (m & 0o7777)) & 0o170000 == 0o010000 && (0o140000u32 | (m & 0o7777))
        & 0o170000 == 0o140000 && (0o020000u32 | (m & 0o7777)) & 0o170000 == 0o020000 && (
    0o060000u32 | (m & 0o7777)) & 0o170000 == 0o060000 && (0o060000u32 | (m & 0o7777)) & 0o7777
        == m & 0o7777) by (bit_vector);
}

/// A file of a FAT volume tells its size and, if it may not be written, nobody's
/// leave to do so; a directory is one.
pub proof fn fat_files_tell_what_they_are(path: Seq<char>, meta: VfatMetadata, now: Timestamp)
    ensures
        ({
            let told = from_vfat(path, meta, now);
            &&& meta.is_dir <==> told.kind == VfsNodeKind::Directory
            &&& !meta.is_dir <==> told.kind == VfsNodeKind::Regular
            &&& meta.is_dir ==> told.mode & 0o170000 == 0o040000 && told.mode & 0o111 == 0o111
            &&& !meta.is_dir ==> told.mode & 0o170000 == 0o100000 && told.mode & 0o444 == 0o444
            &&& !meta.is_dir ==> (meta.readonly <==> told.mode & 0o222 == 0)
            &&& told.size == meta.size
            &&& told.blocks * 512 >= told.size && told.blocks * 512 < told.size + 512
            &&& told.mtime_sec == now.sec && told.nlink == 1
        }),
{
    assert((0o040000u32 | 0o755u32) & 0o170000 == 0o040000 && (0o040000u32 | 0o755u32) & 0o111
        == 0o111 && (0o100000u32 | 0o444u32) & 0o170000 == 0o100000 && (0o100000u32 | 0o644u32)
        & 0o170000 == 0o100000 && (0o100000u32 | 0o444u32) & 0o444 == 0o444 && (0o100000u32
        | 0o644u32) & 0o444 == 0o444 && (0o100000u32 | 0o444u32) & 0o222 == 0 && (0o100000u32
        | 0o644u32) & 0o222 != 0) by (bit_vector);
}

/// The times of a file are told as they are, each as itself; nothing else depends
/// on them.
pub proof fn times_are_told_apart(meta: VfsMetadata, times: FileTimes)
    ensures
        ({
            let told = meta.at_times(times);
            &&& told.atime_sec == times.atime_sec && told.atime_nsec == times.atime_nsec
            &&& told.mtime_sec == times.mtime_sec && told.mtime_nsec == times.mtime_nsec
            &&& told.ctime_sec == times.ctime_sec && told.ctime_nsec == times.ctime_nsec
            &&& told.size == meta.size && told.mode == meta.mode && told.ino == meta.ino
            &&& told.uid == meta.uid && told.gid == meta.gid && told.nlink == meta.nlink
        }),
{
}

/// Of a list of paths those are left that were not taken away, in their order.
pub proof fn paths_that_are_there_are_left(v: &Vfs, paths: Seq<Seq<char>>, path: Seq<char>)
    ensures
        v.still_there(paths.push(path)) == (if v.whiteouts@.contains_key(normalized(path)) {
            v.still_there(paths)
        } else {
            v.still_there(paths).push(path)
        }),
        v.still_there(Seq::empty()) == Seq::<Seq<char>>::empty(),
{
    assert(paths.push(path).drop_last() =~= paths);
}

} // verus!
