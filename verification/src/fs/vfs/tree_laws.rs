//! What changes of the tree mean for what is found in it afterwards.
use vstd::prelude::*;

use crate::errno::SysErrNo;
use crate::fs::block_dev::device::RawBlockDevice;
use crate::fs::ext4::data::TruncateWork;
use crate::fs::ext4::types::{kind_of_mode, Ext4NodeKind};
use crate::fs::ext4::volume::{Fault, Found, Load};
use crate::fs::memfs::laws::{
    created_file_is_found, linked_names_share_contents, removed_file_is_gone,
    renamed_file_keeps_contents,
};
use crate::fs::path::{descends, normalize_is_idempotent, normalized};
use crate::fs::vfs::attributes::{Cutting, Recording};
use crate::fs::vfs::creation::Creation;
use crate::fs::vfs::removal::{DirRemoval, FileRemoval, Linking, Renaming, Side};
use crate::fs::vfs::tree::{holder, Vfs};
use crate::fs::vfs::types::VfsMetadata;
use crate::task::{Caller, Timestamp};

verus! {

/// What is taken away was there and was no directory; then it is nowhere: it is
/// not found, nothing is told of it, the volume's node of that name does not
/// show, and it cannot be taken away again. What the volume is asked to take away
/// is its own node at that path.
pub proof fn a_removed_file_is_nowhere<D: RawBlockDevice>(
    was: &Vfs,
    after: &Vfs,
    dev: &D,
    path: Seq<char>,
    follow: bool,
    now: Timestamp,
    r: FileRemoval,
)
    requires
        after.file_removed(was, dev, path, Ok::<FileRemoval, Fault>(r)),
    ensures
        !was.removed(path),
        !was.files.mem@.has_dir(normalized(path)),
        match r {
            FileRemoval::Done => {
                &&& was.mem_other_at(path)
                &&& after.removed(path)
                &&& after.has_file(dev, path) == Ok::<bool, Fault>(false)
                &&& after.has_dir(dev, path) == Ok::<bool, Fault>(false)
                &&& after.told(dev, path, follow, now) == Err::<VfsMetadata, Fault>(
                    Fault::Sys(SysErrNo::ENOENT),
                )
                &&& after.file_removal(dev, path) == Err::<Side, Fault>(
                    Fault::Sys(SysErrNo::ENOENT),
                )
                &&& after.files.mem@.file_index(normalized(path)) is None
                &&& !after.files.mem@.symlinks.contains_key(normalized(path))
                &&& !after.files.mem@.specials.contains_key(normalized(path))
                &&& after.files.mem@.dirs == was.files.mem@.dirs
                &&& after.files.vol == was.files.vol
                &&& forall|other: Seq<char>|
                    normalized(other) != normalized(path) ==> #[trigger] after.removed(other)
                        == was.removed(other)
            },
            FileRemoval::Volume(u) => {
                &&& !was.mem_other_at(path)
                &&& was.files.vol.names.lookup_spec(path) == Ok::<Found, Load>(
                    Some((u.removal.child_ino, u.removal.child_kind)),
                )
                &&& u.removal.child_kind != Ext4NodeKind::Directory
                &&& u.removal.place.path@ == normalized(path)
                &&& after.files.mem == was.files.mem
            },
        },
{
    reveal(Vfs::told);
    normalize_is_idempotent(path);
    if r is Done {
        removed_file_is_gone(was.files.mem@, path);
    }
}

/// Only an empty directory is taken away, and then it is nowhere.
pub proof fn a_removed_dir_is_nowhere<D: RawBlockDevice>(
    was: &Vfs,
    after: &Vfs,
    dev: &D,
    path: Seq<char>,
    follow: bool,
    now: Timestamp,
    r: DirRemoval,
)
    requires
        after.dir_gone(was, dev, path, Ok::<DirRemoval, Fault>(r)),
    ensures
        !was.removed(path),
        normalized(path) != seq!['/'],
        match r {
            DirRemoval::Done => {
                &&& was.files.mem@.has_dir(normalized(path))
                &&& forall|i: int|
                    0 <= i < was.files.mem@.files.len() ==> !descends(
                        normalized(path),
                        (#[trigger] was.files.mem@.files[i]).name,
                    )
                &&& forall|k: Seq<char>| #[trigger]
                    was.files.mem@.symlinks.contains_key(k) ==> !descends(normalized(path), k)
                &&& forall|k: Seq<char>| #[trigger]
                    was.files.mem@.specials.contains_key(k) ==> !descends(normalized(path), k)
                &&& after.removed(path)
                &&& after.has_dir(dev, path) == Ok::<bool, Fault>(false)
                &&& after.told(dev, path, follow, now) == Err::<VfsMetadata, Fault>(
                    Fault::Sys(SysErrNo::ENOENT),
                )
                &&& after.files.mem@.files == was.files.mem@.files
                &&& after.files.mem@.symlinks == was.files.mem@.symlinks
                &&& after.files.vol == was.files.vol
            },
            DirRemoval::Volume(removal) => {
                &&& !was.files.mem@.has_node(normalized(path))
                &&& was.files.vol.names.lookup_spec(path) == Ok::<Found, Load>(
                    Some((removal.child_ino, Ext4NodeKind::Directory)),
                )
                &&& was.files.vol.names.dirs@[removal.child_ino as u128]@.dom().len() == 0
                &&& *after == *was
            },
        },
{
    reveal(Vfs::told);
    normalize_is_idempotent(path);
    let m = was.files.mem@;
    if r is Done {
        let n = normalized(path);
        assert(!m.has_entries(n));
        assert forall|i: int| 0 <= i < m.files.len() implies !descends(
            n,
            (#[trigger] m.files[i]).name,
        ) by {}
    }
}

/// A file of memory that was renamed is found under its new name, with what it
/// held and what was recorded of it, and not under the old one; nothing below
/// shows through there.
pub proof fn a_renamed_file_is_found<D: RawBlockDevice>(
    was: &Vfs,
    after: &Vfs,
    dev: &D,
    from: Seq<char>,
    to: Seq<char>,
    no_replace: bool,
)
    requires
        was.wf(),
        after.path_renamed(was, dev, from, to, no_replace, Ok::<Renaming, Fault>(Renaming::Done)),
        normalized(from) != normalized(to),
        was.files.mem@.file_index(normalized(from)) is Some,
        !was.files.mem@.has_dir(normalized(from)),
        !was.files.mem@.specials.contains_key(normalized(from)),
        !was.files.mem@.symlinks.contains_key(normalized(from)),
    ensures
        after.removed(from),
        !after.removed(to),
        after.has_file(dev, from) == Ok::<bool, Fault>(false),
        after.files.mem@.file_index(normalized(to)) is Some,
        after.files.mem@.backing_of(normalized(to)) == was.files.mem@.backing_of(normalized(from)),
        !after.files.mem@.has_node(normalized(from)),
        no_replace ==> was.occupied(dev, to) == Ok::<bool, Fault>(false),
        after.files.vol == was.files.vol,
{
    normalize_is_idempotent(from);
    normalize_is_idempotent(to);
    was.files.mem.files_have_contents();
    renamed_file_keeps_contents(was.files.mem@, from, to);
}

/// A rename that fails changes nothing, and one on the volume leaves memory
/// alone. Nothing is replaced where that is forbidden.
pub proof fn renames_respect_what_is_there<D: RawBlockDevice>(
    was: &Vfs,
    after: &Vfs,
    dev: &D,
    from: Seq<char>,
    to: Seq<char>,
    no_replace: bool,
    r: Result<Renaming, Fault>,
)
    requires
        after.path_renamed(was, dev, from, to, no_replace, r),
    ensures
        r is Err ==> after.files.mem@ == was.files.mem@ && after.whiteouts == was.whiteouts
            && after.files.vol == was.files.vol,
        was.removed(from) ==> r == Err::<Renaming, Fault>(Fault::Sys(SysErrNo::ENOENT)),
        r is Ok && no_replace ==> was.occupied(dev, to) == Ok::<bool, Fault>(false),
        r is Ok ==> was.fat_told(dev, from) is None && was.fat_told(dev, holder(to)) is None,
        r is Ok ==> was.in_tmpfs(from) == was.in_tmpfs(to),
        r is Ok && r->Ok_0 is Done ==> was.files.mem@.has_node(normalized(from)),
        r is Ok && r->Ok_0 is Volume ==> *after == *was && !was.files.mem@.has_node(
            normalized(from),
        ) && !was.files.mem@.has_node(normalized(to)) && was.kind_at(from) is Ok && was.kind_at(
            from,
        )->Ok_0 is Some,
{
}

/// A file of memory and its second name are one file: what is held under one is
/// held under the other, and the name is shown.
pub proof fn a_linked_file_has_two_names<D: RawBlockDevice>(
    was: &Vfs,
    after: &Vfs,
    dev: &D,
    caller: &Caller,
    from: Seq<char>,
    to: Seq<char>,
    follow: bool,
)
    requires
        was.wf(),
        after.path_linked(was, dev, from, to, follow, Ok::<Linking, Fault>(Linking::Done)),
        was.files.mem@.file_index(normalized(from)) is Some,
    ensures
        was.occupied(dev, to) == Ok::<bool, Fault>(false),
        !after.removed(to),
        after.files.mem@.backing_of(normalized(from)) == was.files.mem@.backing_of(
            normalized(from),
        ),
        after.files.mem@.backing_of(normalized(to)) == was.files.mem@.backing_of(
            normalized(from),
        ),
        !was.files.mem@.has_dir(normalized(from)),
        after.files.vol == was.files.vol,
{
    normalize_is_idempotent(from);
    normalize_is_idempotent(to);
    was.files.mem.files_have_contents();
    linked_names_share_contents(was.files.mem@, caller, from, to, 0, seq![0u8]);
}

/// What was created was not there before. In memory it is there then, shown, and
/// a second creation is refused; what is there is never replaced.
pub proof fn a_created_file_is_found<D: RawBlockDevice>(
    was: &Vfs,
    after: &Vfs,
    dev: &D,
    caller: &Caller,
    path: Seq<char>,
    mode: u32,
    r: Result<Creation, Fault>,
)
    requires
        after.file_created(was, dev, caller, path, mode, r),
    ensures
        r is Ok ==> was.occupied(dev, path) == Ok::<bool, Fault>(false),
        was.occupied(dev, path) == Ok::<bool, Fault>(true) ==> r == Err::<Creation, Fault>(
            Fault::Sys(SysErrNo::EEXIST),
        ) && *after == *was,
        r is Ok && r->Ok_0 is Here ==> {
            &&& !after.removed(path)
            &&& after.files.mem@.file_index(normalized(path)) is Some
            &&& after.files.mem@.backing_of(normalized(path)).content.len() == 0
            &&& after.fat_told(dev, path) is None ==> after.has_file(dev, path) == Ok::<bool, Fault>(
                true,
            )
            &&& after.files.vol == was.files.vol
        },
        r is Ok && r->Ok_0 is Volume ==> {
            &&& kind_of_mode(r->Ok_0->Volume_0.mode) == Ext4NodeKind::Regular || mode > 0o7777
            &&& r->Ok_0->Volume_0.place.path@ == normalized(path)
            &&& was.files.vol.names.lookup_spec(path) == Ok::<Found, Load>(None)
        },
{
    normalize_is_idempotent(path);
    if r is Ok {
        let mid = choose|mid: Vfs|
            #![trigger mid.shown_again(was, path)]
            exists|made: Vfs|
                #![trigger made.file_made(&mid, dev, caller, path, mode, r)]
                mid.shown_again(was, path) && made.file_made(&mid, dev, caller, path, mode, r)
                    && after.left_as(was, &made, crate::fs::vfs::creation::asks(r));
        let made = choose|made: Vfs|
            #![trigger made.file_made(&mid, dev, caller, path, mode, r)]
            mid.shown_again(was, path) && made.file_made(&mid, dev, caller, path, mode, r)
                && after.left_as(was, &made, crate::fs::vfs::creation::asks(r));
        if r->Ok_0 is Here {
            created_file_is_found(mid.files.mem@, caller, path, Seq::empty(), mode);
        } else {
            let perm = (mode as u16) & 0o7777u16;
            assert((0x8000u16 | perm) & 0xf000u16 == 0x8000u16 && ((0x8000u16 | perm)) & 0xf000u16
                == 0x8000u16) by (bit_vector)
                requires
                    perm == (mode as u16) & 0o7777u16,
            ;
        }
    }
}

/// Permissions that are set are told: the new ones, and nothing else but the time
/// of the last change differs.
pub proof fn set_permissions_are_told<D: RawBlockDevice>(
    was: &Vfs,
    after: &Vfs,
    dev: &D,
    caller: &Caller,
    path: Seq<char>,
    follow: bool,
    mode: u32,
    now: u32,
    r: Recording,
)
    requires
        was.wf(),
        after.mode_set(was, dev, caller, path, follow, mode, now, Ok::<Recording, Fault>(r)),
    ensures
        match r {
            Recording::Done => {
                let m = after.files.mem@.meta_of(normalized(path));
                &&& m is Some
                &&& m->0.mode == mode & 0o7777
                &&& was.files.mem@.meta_of(normalized(path)) is Some ==> m->0.uid
                    == was.files.mem@.meta_of(normalized(path))->0.uid && m->0.gid
                    == was.files.mem@.meta_of(normalized(path))->0.gid && m->0.ino
                    == was.files.mem@.meta_of(normalized(path))->0.ino
                &&& after.files.mem@.files == was.files.mem@.files
                &&& forall|i: int|
                    0 <= i < was.files.mem@.backings.len() ==> (
                    #[trigger] after.files.mem@.backings[i]).content
                        == was.files.mem@.backings[i].content
            },
            Recording::Inode(ino, inode) => {
                &&& *after == *was
                &&& was.files.vol.names.inodes@.contains_key(ino as u128)
                &&& inode.uid == was.files.vol.names.inodes@[ino as u128].uid
                &&& inode.size == was.files.vol.names.inodes@[ino as u128].size
                &&& inode.links == was.files.vol.names.inodes@[ino as u128].links
                &&& inode.ctime == now
                &&& !follow ==> was.files.vol.names.lookup_spec(path) is Ok
                    && was.files.vol.names.lookup_spec(path)->Ok_0 is Some
                    && was.files.vol.names.lookup_spec(path)->Ok_0->Some_0.0 == ino
            },
        },
{
    normalize_is_idempotent(path);
    if r is Done {
        was.files.mem.files_have_contents();
        let n = normalized(path);
        let m = was.files.mem@;
        let base = m.with_some_meta(n, crate::fs::node::MemNodeMetadata::plain(0o666));
        assert(base.files == m.files && base.backings == m.backings);
        let then = base.with_meta(
            n,
            crate::fs::node::MemNodeMetadata { mode: mode & 0o7777, ..base.metadata[n] },
        );
        assert(then.files == m.files && then.backings == m.backings);
        if then.file_index(n) is Some {
            let i = choose|i: int| then.first_file(n, i);
            assert(then.first_file(n, i));
            assert(0 <= m.files[i].backing < m.backings.len());
        }
    }
}

/// A path whose length was set: in memory the file has that length, keeps what it
/// held in front of it, and has zeros behind that.
pub proof fn a_cut_path_has_its_length<D: RawBlockDevice>(
    was: &Vfs,
    after: &Vfs,
    dev: &D,
    caller: &Caller,
    path: Seq<char>,
    size: u64,
    now: u32,
    r: Cutting,
)
    requires
        was.wf(),
        after.path_cut(was, dev, caller, path, size, now, Ok::<Cutting, Fault>(r)),
    ensures
        match r {
            Cutting::Done => {
                let n = normalized(path);
                let old = was.files.mem@.backing_of(n).content;
                let new = after.files.mem@.backing_of(n).content;
                &&& was.files.mem@.file_index(n) is Some
                &&& after.files.mem@.file_index(n) == was.files.mem@.file_index(n)
                &&& new.len() == size
                &&& forall|i: int|
                    0 <= i < size ==> #[trigger] new[i] == (if i < old.len() {
                        old[i]
                    } else {
                        0
                    })
                &&& after.files.mem@.backing_of(n).times.mtime_sec == caller.now.sec
                &&& after.files.vol == was.files.vol
            },
            Cutting::Volume(ino, work) => {
                &&& was.files.mem@.file_index(normalized(path)) is None
                &&& after.files.vol.truncate_done(
                    &was.files.vol,
                    ino,
                    size,
                    now,
                    Ok::<TruncateWork, Fault>(work),
                )
                &&& after.files.mem == was.files.mem
            },
        },
{
    normalize_is_idempotent(path);
    if r is Done {
        was.files.mem.files_have_contents();
        let m = was.files.mem@;
        let n = normalized(path);
        let t = m.truncate_file(caller, path, size as nat).0;
        assert(t.files == m.files);
        assert(t.file_index(n) == m.file_index(n)) by {
            assert forall|i: int| t.first_file(n, i) == m.first_file(n, i) by {}
        }
        let i = choose|i: int| m.first_file(n, i);
        assert(m.first_file(n, i));
    }
}

} // verus!
