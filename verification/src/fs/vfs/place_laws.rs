//! What mounts, directories that lie over each other and contents come to.
use vstd::prelude::*;

use crate::errno::SysErrNo;
use crate::fs::block_dev::device::RawBlockDevice;
use crate::fs::content::{is_elf, MAX_FILE_OFFSET};
use crate::fs::fd::descriptor::VfsNodeKind;
use crate::fs::memfs::laws::added_file_is_found;
use crate::fs::memfs::model::{DirEntryModel, MemFsModel};
use crate::fs::memfs::store::backings_exist;
use crate::fs::path::{local_part, normalize_is_idempotent, normalized};
use crate::fs::vfs::contents::{chosen, ReadingModel};
use crate::fs::vfs::listing::named;
use crate::fs::vfs::lookup::pieced;
use crate::fs::vfs::mounts::{record_line, table_text};
use crate::fs::vfs::tree::{under, MountBackend, MountEntry, Vfs};
use crate::fs::ext4::volume::Fault;
use crate::task::Caller;

verus! {

proof fn lemma_named(entries: Seq<DirEntryModel>, name: Seq<char>)
    ensures
        named(entries).contains_key(name) <==> exists|i: int|
            0 <= i < entries.len() && (#[trigger] entries[i]).name == name,
        named(entries).contains_key(name) ==> exists|i: int|
            0 <= i < entries.len() && (#[trigger] entries[i]).name == name && entries[i].is_dir
                == named(entries)[name],
    decreases entries.len(),
{
    if entries.len() > 0 {
        let front = entries.drop_last();
        let last = entries.last();
        lemma_named(front, name);
        assert(entries[entries.len() - 1] == last);
        if named(front).contains_key(name) && last.name != name {
            let i = choose|i: int|
                0 <= i < front.len() && (#[trigger] front[i]).name == name && front[i].is_dir
                    == named(front)[name];
            assert(entries[i] == front[i]);
        }
        if exists|i: int| 0 <= i < entries.len() && (#[trigger] entries[i]).name == name {
            let i = choose|i: int| 0 <= i < entries.len() && (#[trigger] entries[i]).name == name;
            if i < front.len() {
                assert(front[i] == entries[i]);
            }
        }
    }
}

proof fn lemma_below(
    v: &Vfs,
    above: Map<Seq<char>, bool>,
    dir: Seq<char>,
    below: Seq<(Seq<char>, u32, bool)>,
    name: Seq<char>,
)
    ensures
        ({
            let all = v.with_volume_names(above, dir, below);
            &&& all.contains_key(name) <==> above.contains_key(name) || (!v.removed(
                pieced(dir, name),
            ) && exists|i: int| 0 <= i < below.len() && (#[trigger] below[i]).0 == name)
            &&& above.contains_key(name) ==> all[name] == above[name]
            &&& all.contains_key(name) && !above.contains_key(name) ==> exists|i: int|
                0 <= i < below.len() && (#[trigger] below[i]).0 == name && below[i].2 == all[name]
        }),
    decreases below.len(),
{
    if below.len() > 0 {
        let front = below.drop_last();
        lemma_below(v, above, dir, front, name);
        let before = v.with_volume_names(above, dir, front);
        let all = v.with_volume_names(above, dir, below);
        assert(below[below.len() - 1] == below.last());
        if before.contains_key(name) && !above.contains_key(name) {
            let i = choose|i: int|
                0 <= i < front.len() && (#[trigger] front[i]).0 == name && front[i].2
                    == before[name];
            assert(below[i] == front[i]);
        }
        if exists|i: int| 0 <= i < below.len() && (#[trigger] below[i]).0 == name {
            let i = choose|i: int| 0 <= i < below.len() && (#[trigger] below[i]).0 == name;
            if i < front.len() {
                assert(front[i] == below[i]);
            }
        }
    }
}

/// A directory that lies in memory and on the volume shows the names of both, but
/// for those of the volume that were taken away. A name in both is shown as it is
/// in memory.
pub proof fn a_directory_shows_both_sides(
    v: &Vfs,
    entries: Seq<DirEntryModel>,
    dir: Seq<char>,
    below: Seq<(Seq<char>, u32, bool)>,
    name: Seq<char>,
)
    ensures
        ({
            let all = v.with_volume_names(named(entries), dir, below);
            let in_memory = exists|i: int|
                0 <= i < entries.len() && (#[trigger] entries[i]).name == name;
            let on_volume = exists|i: int| 0 <= i < below.len() && (#[trigger] below[i]).0 == name;
            let gone = v.whiteouts@.contains_key(normalized(pieced(dir, name)));
            &&& all.contains_key(name) <==> in_memory || (on_volume && !gone)
            &&& in_memory ==> exists|i: int|
                0 <= i < entries.len() && (#[trigger] entries[i]).name == name
                    && entries[i].is_dir == all[name]
            &&& !in_memory && all.contains_key(name) ==> exists|i: int|
                0 <= i < below.len() && (#[trigger] below[i]).0 == name && below[i].2 == all[name]
        }),
{
    lemma_named(entries, name);
    lemma_below(v, named(entries), dir, below, name);
}

/// Something was mounted only at a directory that nothing was mounted at, without
/// flags, and from a device with a boot sector unless it lives in memory. The new
/// mount comes last, all others stay; a refused one leaves the mounts as they
/// were.
pub proof fn a_mount_comes_last<D: RawBlockDevice>(
    was: &Vfs,
    after: &Vfs,
    dev: &D,
    caller: &Caller,
    source: Seq<char>,
    logical: Seq<char>,
    host: Seq<char>,
    fstype: Seq<char>,
    flags: usize,
    r: Result<(), Fault>,
)
    requires
        after.fs_mounted(was, dev, caller, source, logical, host, fstype, flags, r),
    ensures
        flags != 0 ==> r == Err::<(), Fault>(Fault::Sys(SysErrNo::EINVAL)),
        r is Err ==> after.mounts == was.mounts,
        after.whiteouts == was.whiteouts,
        after.files.vol == was.files.vol,
        fstype != "tmpfs"@ && fstype != "vfat"@ && fstype != "fat"@ && fstype != "msdos"@ ==> r
            is Err,
        r is Ok ==> {
            let e = after.mounts@.last();
            &&& after.mounts@.len() == was.mounts@.len() + 1
            &&& forall|i: int|
                0 <= i < was.mounts@.len() ==> #[trigger] after.mounts@[i] == was.mounts@[i]
            &&& forall|i: int|
                0 <= i < was.mounts@.len() ==> (#[trigger] was.mounts@[i]).host_target@
                    != normalized(host)
            &&& e.host_target@ == normalized(host) && e.logical_target@ == normalized(logical)
            &&& e.source@ == normalized(source)
            &&& was.told(dev, normalized(host), true, caller.now) is Ok
            &&& was.told(dev, normalized(host), true, caller.now)->Ok_0.kind
                == VfsNodeKind::Directory
            &&& fstype == "tmpfs"@ <==> e.backend is Tmpfs
            &&& fstype != "tmpfs"@ ==> e.backend is Vfat
        },
        r is Ok && fstype == "tmpfs"@ ==> after.in_tmpfs(host),
{
    reveal_strlit("tmpfs");
    if r is Ok && fstype == "tmpfs"@ {
        let i = was.mounts@.len() as int;
        normalize_is_idempotent(host);
        assert(after.mounts@[i].backend is Tmpfs);
        assert(under(host, after.mounts@[i].host_target@));
    }
}

/// A volume is mounted only from the node of a block device that is there, and
/// never from the one that the root lies on.
pub proof fn only_free_devices_are_mounted<D: RawBlockDevice>(
    was: &Vfs,
    after: &Vfs,
    dev: &D,
    caller: &Caller,
    source: Seq<char>,
    logical: Seq<char>,
    host: Seq<char>,
    fstype: Seq<char>,
)
    requires
        after.fs_mounted(
            was,
            dev,
            caller,
            source,
            logical,
            host,
            fstype,
            0,
            Ok::<(), Fault>(()),
        ),
        fstype != "tmpfs"@,
    ensures
        ({
            let s = normalized(source);
            let told = was.told(dev, s, true, caller.now);
            &&& told is Ok
            &&& told->Ok_0.mode & 0o170000 == 0o060000
            &&& was.numbers_at(s) == Some((told->Ok_0.rdev_major, told->Ok_0.rdev_minor))
            &&& was.files.blocks.device_at(local_part(s)) is Some
            &&& was.files.blocks.root_source@ != local_part(s)
            &&& was.files.vol.names.mounted
        }),
{
}

/// What is unmounted is the mount of that name that came last; all others stay in
/// their order. What is not mounted and the root cannot be unmounted.
pub proof fn the_last_mount_goes_first(
    was: &Vfs,
    after: &Vfs,
    caller: &Caller,
    logical: Seq<char>,
    host: Seq<char>,
    flags: usize,
    r: Result<(), SysErrNo>,
)
    requires
        after.fs_unmounted(was, caller, logical, host, flags, r),
    ensures
        r is Err ==> *after == *was,
        (forall|i: int|
            0 <= i < was.mounts@.len() ==> (#[trigger] was.mounts@[i]).logical_target@
                != normalized(logical) || was.mounts@[i].host_target@ != normalized(host)) ==> r
            == Err::<(), SysErrNo>(SysErrNo::EINVAL),
        normalized(logical) == seq!['/'] ==> r is Err,
        flags & !15 != 0 ==> r == Err::<(), SysErrNo>(SysErrNo::EINVAL),
        r is Ok ==> exists|i: int|
            {
                &&& 0 <= i < was.mounts@.len()
                &&& (#[trigger] was.mounts@[i]).logical_target@ == normalized(logical)
                &&& was.mounts@[i].host_target@ == normalized(host)
                &&& forall|j: int|
                    i < j < was.mounts@.len() ==> (#[trigger] was.mounts@[j]).logical_target@
                        != normalized(logical) || was.mounts@[j].host_target@ != normalized(host)
                &&& after.mounts@ == was.mounts@.subrange(0, i) + was.mounts@.subrange(
                    i + 1,
                    was.mounts@.len() as int,
                )
            },
{
    let l = normalized(logical);
    let h = normalized(host);
    if r is Ok {
        let i = choose|i: int| #[trigger]
            was.is_last_mount(i, l, h) && after.mounts@ == was.mounts@.remove(i);
        assert(was.mounts@[i].logical_target@ == l);
        assert forall|j: int| i < j < was.mounts@.len() implies (
        #[trigger] was.mounts@[j]).logical_target@ != l || was.mounts@[j].host_target@ != h by {
            assert(!was.mount_matches(j, l, h));
        }
        assert(after.mounts@ =~= was.mounts@.subrange(0, i) + was.mounts@.subrange(
            i + 1,
            was.mounts@.len() as int,
        ));
    }
}

/// The table of mounts has a line for each, in their order, with its source, its
/// place and its kind.
pub proof fn every_mount_has_its_line(mounts: Seq<MountEntry>, e: MountEntry)
    ensures
        table_text(mounts.push(e)) == table_text(mounts) + record_line(e),
        record_line(e) == e.source@ + seq![' '] + e.logical_target@ + seq![' '] + e.fstype@
            + seq![' ', 'r', 'w', ' ', '0', ' ', '0', '\n'],
        table_text(Seq::<MountEntry>::empty()) == Seq::<char>::empty(),
{
    assert(mounts.push(e).drop_last() =~= mounts);
    reveal_strlit(" ");
    reveal_strlit(" rw 0 0\n");
    assert(" "@ =~= seq![' ']);
    assert(" rw 0 0\n"@ =~= seq![' ', 'r', 'w', ' ', '0', ' ', '0', '\n']);
}

/// Of the FAT volumes that a path lies below, the one serves it whose place is the
/// deepest, and of several at one place the one that was mounted last. It is asked
/// for what is left of the path behind that place.
pub proof fn the_deepest_volume_serves(v: &Vfs, path: Seq<char>, i: int)
    requires
        0 <= i < v.mounts@.len(),
        v.mounts@[i].backend is Vfat,
        under(path, v.mounts@[i].host_target@),
        forall|j: int|
            0 <= j < v.mounts@.len() && (#[trigger] v.mounts@[j]).backend is Vfat && under(
                path,
                v.mounts@[j].host_target@,
            ) ==> v.mounts@[j].host_target@.len() < v.mounts@[i].host_target@.len() || (
            v.mounts@[j].host_target@.len() == v.mounts@[i].host_target@.len() && j <= i),
        normalized(v.mounts@[i].host_target@) == v.mounts@[i].host_target@,
    ensures
        v.fat_at(path) is Some,
        match v.mounts@[i].backend {
            MountBackend::Vfat { volume, range } => v.fat_at(path)->Some_0.0 == volume
                && v.fat_at(path)->Some_0.1 == range,
            _ => false,
        },
        ({
            let n = normalized(path);
            let host = v.mounts@[i].host_target@;
            &&& n == host ==> v.fat_at(path)->Some_0.2 == seq!['/']
            &&& n != host && n.len() > host.len() + 1 ==> v.fat_at(path)->Some_0.2 == normalized(
                n.skip(host.len() as int),
            )
        }),
{
    lemma_serves(v, path, i, v.mounts@.len());
    let n = normalized(path);
    let host = v.mounts@[i].host_target@;
    if n != host && n.len() > host.len() + 1 {
        let head = n.take(host.len() as int + 1);
        assert(head == host.push('/'));
        assert(n[host.len() as int] == head[host.len() as int]);
        assert(n.skip(host.len() as int) =~= seq!['/'] + n.skip(host.len() as int + 1));
    }
}

proof fn lemma_serves(v: &Vfs, path: Seq<char>, i: int, n: nat)
    requires
        0 <= i < v.mounts@.len(),
        n <= v.mounts@.len(),
        v.serves_fat(i, path),
        forall|j: int|
            0 <= j < v.mounts@.len() && (#[trigger] v.mounts@[j]).backend is Vfat && under(
                path,
                v.mounts@[j].host_target@,
            ) ==> v.mounts@[j].host_target@.len() < v.mounts@[i].host_target@.len() || (
            v.mounts@[j].host_target@.len() == v.mounts@[i].host_target@.len() && j <= i),
    ensures
        n > i ==> v.fat_mount(path, n) == Some(i),
        n <= i ==> (v.fat_mount(path, n) is Some ==> 0 <= v.fat_mount(path, n)->0 < n
            && v.serves_fat(v.fat_mount(path, n)->0, path)),
    decreases n,
{
    if n > 0 {
        lemma_serves(v, path, i, (n - 1) as nat);
        let best = v.fat_mount(path, (n - 1) as nat);
        if n - 1 > i {
            assert(v.mounts@[n - 1].backend is Vfat && under(path, v.mounts@[n - 1].host_target@)
                ==> v.mounts@[n - 1].host_target@.len() < v.mounts@[i].host_target@.len());
        } else if best is Some {
            assert(v.mounts@[best->0].backend is Vfat);
        }
    }
}

/// A file whose contents are set holds just those.
pub proof fn set_contents_are_held(m: MemFsModel, caller: &Caller, path: Seq<char>, data: Seq<u8>)
    requires
        backings_exist(m),
        data.len() <= MAX_FILE_OFFSET,
    ensures
        ({
            let after = m.with_contents(caller, path, data);
            &&& after.file_index(normalized(path)) is Some
            &&& after.backing_of(normalized(path)).content == data
            &&& after.backing_of(normalized(path)).times.mtime_sec == caller.now.sec
        }),
{
    let n = normalized(path);
    normalize_is_idempotent(path);
    if m.file_index(n) is Some {
        let i = choose|i: int| m.first_file(n, i);
        assert(m.first_file(n, i));
        let after = m.with_contents(caller, path, data);
        assert forall|k: int| after.first_file(n, k) == m.first_file(n, k) by {}
        assert(after.file_index(n) == m.file_index(n));
    } else {
        added_file_is_found(m, caller, path, data);
    }
}

/// What is read of a path are the bytes of the file in memory that it ends at,
/// whatever the volume holds there; nothing is read of what was taken away, and
/// the volume is asked only about what memory does not decide.
pub proof fn memory_lies_over_the_volume<D: RawBlockDevice>(v: &Vfs, dev: &D, path: Seq<char>, end: Seq<char>)
    requires
        v.ending(path, false) == Ok::<Seq<char>, Fault>(end),
    ensures
        v.whiteouts@.contains_key(normalized(path)) || v.whiteouts@.contains_key(normalized(end))
            ==> v.reading(dev, path) == Ok::<ReadingModel, Fault>(ReadingModel::Nothing),
        !v.whiteouts@.contains_key(normalized(path)) && !v.whiteouts@.contains_key(
            normalized(end),
        ) && v.fat_at(end) is None ==> {
            let m = v.files.mem@;
            let n = normalized(end);
            &&& m.file_index(n) is Some ==> v.reading(dev, path) == Ok::<ReadingModel, Fault>(
                ReadingModel::Bytes(m.backings[m.files[m.file_index(n)->0].backing as int].content),
            )
            &&& m.file_index(n) is None && v.in_tmpfs(end) ==> v.reading(dev, path) == Ok::<
                ReadingModel,
                Fault,
            >(ReadingModel::Nothing)
            &&& m.file_index(n) is None && !v.in_tmpfs(end) ==> v.reading(dev, path) == Ok::<
                ReadingModel,
                Fault,
            >(ReadingModel::Volume(end))
        },
{
}

/// Of a file that lies over another the one that can be run is run: there is one
/// unless both are missing, it is one of the two, and it is an executable if
/// either is the one below or the only one.
pub proof fn the_runnable_file_is_run(above: Option<Seq<u8>>, below: Option<Seq<u8>>)
    ensures
        chosen(above, below) is None <==> above is None && below is None,
        chosen(above, below) == above || chosen(above, below) == below,
        below is Some && is_elf(below->0) ==> chosen(above, below) == below,
        above is Some && !(below is Some && is_elf(below->0)) ==> chosen(above, below) == above,
        above is None ==> chosen(above, below) == below,
{
}

/// The space in use that is told is enough for all that is held, and not a whole
/// block more; so is the count of nodes.
pub proof fn told_space_is_enough(m: MemFsModel)
    requires
        m.held_bytes() <= 0xffff_0000,
        m.node_count() <= 0xffff_0000,
    ensures
        ({
            let s = m.statfs();
            let used = s.f_blocks - s.f_bfree;
            &&& s.f_bsize == 4096 && s.f_frsize == 4096
            &&& s.f_bavail == s.f_bfree <= s.f_blocks
            &&& m.held_bytes() <= used * 4096
            &&& m.held_bytes() > 0 ==> used * 4096 < m.held_bytes() + 4096
            &&& m.node_count() <= s.f_files - s.f_ffree
            &&& m.node_count() > 0 ==> m.node_count() == s.f_files - s.f_ffree
        }),
{
}

} // verus!
