//! What holds of the tree as a whole.
use vstd::prelude::*;
use vstd::utf8::{encode_utf8, encode_utf8_decode_utf8, encode_utf8_valid_utf8};

use crate::errno::SysErrNo;
use crate::fs::block_dev::device::RawBlockDevice;
use crate::fs::ext4::types::Ext4NodeKind;
use crate::fs::ext4::volume::{Fault, Found, Load};
use crate::fs::path::normalized;
use crate::fs::vfs::creation::Creation;
use crate::fs::vfs::tree::Vfs;
use crate::fs::vfs::types::CredentialIdentity;
use crate::task::Caller;

verus! {

/// A directory that was created in memory is there, also under a name that was
/// taken away before, and a second creation finds it. No FAT volume covers it.
pub proof fn created_dir_is_there<D: RawBlockDevice>(
    was: &Vfs,
    mid: &Vfs,
    after: &Vfs,
    dev: &D,
    caller: &Caller,
    path: Seq<char>,
    mode: u32,
    ino: u32,
)
    requires
        mid.shown_again(was, path),
        after.dir_made(mid, dev, caller, path, mode, Ok(Creation::Here(ino))),
        after.fat_told(dev, path) is None,
    ensures
        !after.removed(path),
        after.has_dir(dev, path) == Ok::<bool, Fault>(true),
        after.occupied(dev, path) is Ok ==> after.occupied(dev, path) == Ok::<bool, Fault>(true),
{
    let n = normalized(path);
    let m = mid.files.mem@.with_parents(n).without_symlink(n).without_special(n);
    let made = mid.files.mem@.add_dir_with_mode(caller, path, mode);
    if m.has_dir(n) {
        assert(made.dirs == m.dirs);
    } else {
        let d = m.with_dir_entry(n);
        assert(d.dirs == m.dirs.push(n));
        assert(d.dirs[m.dirs.len() as int] == n);
        assert(made.dirs == d.dirs);
    }
    assert(made.has_dir(n));
}

/// A directory that was created on the volume is there once its entry is known,
/// also under a name that was taken away before, and a second creation finds
/// it. No FAT volume covers it.
pub proof fn created_volume_dir_is_there<D: RawBlockDevice>(
    was: &Vfs,
    after: &Vfs,
    dev: &D,
    path: Seq<char>,
    ino: u32,
)
    requires
        after.whiteouts@ == was.whiteouts@.remove(normalized(path)),
        after.fat_told(dev, path) is None,
        !after.in_tmpfs(path),
        after.files.vol.names.mounted,
        after.files.vol.names.lookup_spec(path) == Ok::<Found, Load>(
            Some((ino, Ext4NodeKind::Directory)),
        ),
    ensures
        !after.removed(path),
        after.has_dir(dev, path) == Ok::<bool, Fault>(true),
        after.occupied(dev, path) == Ok::<bool, Fault>(true),
{
}

/// A link that was created in memory reads back as its target, as it was given,
/// for a task that may search the directories in front of it, where no link is
/// in front of it. No FAT volume covers it.
pub proof fn created_link_reads_back<D: RawBlockDevice>(
    was: &Vfs,
    after: &Vfs,
    dev: &D,
    maker: &Caller,
    reader: &Caller,
    link: Seq<char>,
    target: Seq<char>,
    p: Seq<char>,
)
    requires
        was.files.mem@.add_symlink(maker, link, target).1 is Ok,
        after.files.mem@ == was.files.mem@.add_symlink(maker, link, target).0,
        after.whiteouts@ == was.whiteouts@.remove(normalized(link)),
        after.parents_resolved(dev, link, reader.now) == Ok::<Seq<char>, Fault>(p),
        normalized(p) == normalized(link),
        after.reachable(dev, p, CredentialIdentity::Filesystem, reader) is Ok,
        after.fat_told(dev, p) is None,
    ensures
        after.link_read(dev, link, reader) == Ok::<Seq<char>, Fault>(target),
{
}

/// A link that was created on the volume reads back as its target, as it was
/// given, once its entry and its contents are known.
pub proof fn created_volume_link_reads_back<D: RawBlockDevice>(
    after: &Vfs,
    dev: &D,
    reader: &Caller,
    link: Seq<char>,
    target: Seq<char>,
    p: Seq<char>,
    ino: u32,
)
    requires
        after.files.vol.names.mounted,
        after.parents_resolved(dev, link, reader.now) == Ok::<Seq<char>, Fault>(p),
        after.files.vol.names.lookup_spec(p) == Ok::<Found, Load>(
            Some((ino, Ext4NodeKind::Symlink)),
        ),
        after.files.vol.names.links@.contains_key(ino as u128),
        after.files.vol.names.links@[ino as u128]@ == encode_utf8(target),
        !after.removed(p),
        !after.files.mem@.has_node(normalized(p)),
        !after.in_tmpfs(p),
        after.reachable(dev, p, CredentialIdentity::Filesystem, reader) is Ok,
        after.fat_told(dev, p) is None,
    ensures
        after.link_read(dev, link, reader) == Ok::<Seq<char>, Fault>(target),
{
    encode_utf8_valid_utf8(target);
    encode_utf8_decode_utf8(target);
}

/// What is there and is no link has no target.
pub proof fn only_links_have_targets<D: RawBlockDevice>(
    v: &Vfs,
    dev: &D,
    reader: &Caller,
    path: Seq<char>,
    p: Seq<char>,
)
    requires
        v.parents_resolved(dev, path, reader.now) == Ok::<Seq<char>, Fault>(p),
        !v.removed(p),
        v.reachable(dev, p, CredentialIdentity::Filesystem, reader) is Ok,
        v.fat_told(dev, p) is None,
        v.files.mem@.has_node(normalized(p)),
        !v.files.mem@.symlinks.contains_key(normalized(p)),
    ensures
        v.link_read(dev, path, reader) == Err::<Seq<char>, Fault>(Fault::Sys(SysErrNo::EINVAL)),
{
}

} // verus!
