//! What is told of paths and open files, and who may use them.
use vstd::prelude::*;

use crate::errno::SysErrNo;
use crate::fs::block_dev::device::RawBlockDevice;
use crate::fs::ext4::types::{Ext4Metadata, Ext4NodeKind};
use crate::fs::ext4::volume::{Fault, Found, Load};
use crate::fs::fd::descriptor::{FileDescriptor, VfsNodeKind};
use crate::fs::memfs::model::{sharers, MemFsModel};
use crate::fs::path::{normalized, parts_of, render};
use crate::fs::vfs::tree::Vfs;
use crate::fs::vfs::types::{
    permitted, CredentialIdentity, VfsMetadata, R_OK, W_OK, X_OK,
};
use crate::task::{Caller, Credentials, Timestamp};

verus! {

/// The bits of a mode that speak for a task: those of the owner, of the group, or
/// of the others.
pub open spec fn speaks(mode: u32, owner: bool, group: bool, owners: u32, groups: u32, others: u32) -> bool {
    if owner {
        mode & owners != 0
    } else if group {
        mode & groups != 0
    } else {
        mode & others != 0
    }
}

/// A task that is not root may do to a node what the bits of its class allow: the
/// owner what the owner's bits allow, a member of the group what the group's do,
/// and anybody else what the others' do. No class falls back on another. Root may
/// do all, but runs a regular file only if somebody may.
pub proof fn mode_bits_decide(
    meta: &VfsMetadata,
    cred: &Credentials,
    identity: CredentialIdentity,
)
    ensures
        ({
            let user = match identity {
                CredentialIdentity::Real => cred.real_uid,
                CredentialIdentity::Effective => cred.effective_uid,
                CredentialIdentity::Filesystem => cred.fsuid,
            };
            let main_group = match identity {
                CredentialIdentity::Real => cred.real_gid,
                CredentialIdentity::Effective => cred.effective_gid,
                CredentialIdentity::Filesystem => cred.fsgid,
            };
            let owner = user == meta.uid;
            let group = meta.gid == main_group || cred.groups@.contains(meta.gid);
            &&& user != 0 ==> (permitted(meta, cred, R_OK, identity) <==> speaks(
                meta.mode,
                owner,
                group,
                0o400,
                0o040,
                0o004,
            ))
            &&& user != 0 ==> (permitted(meta, cred, W_OK, identity) <==> speaks(
                meta.mode,
                owner,
                group,
                0o200,
                0o020,
                0o002,
            ))
            &&& user != 0 ==> (permitted(meta, cred, X_OK, identity) <==> speaks(
                meta.mode,
                owner,
                group,
                0o100,
                0o010,
                0o001,
            ))
            &&& user == 0 ==> permitted(meta, cred, R_OK, identity) && permitted(
                meta,
                cred,
                W_OK,
                identity,
            )
            &&& user == 0 ==> (permitted(meta, cred, X_OK, identity) <==> meta.kind
                != VfsNodeKind::Regular || meta.mode & 0o111 != 0)
            &&& permitted(meta, cred, 0, identity)
        }),
{
    let m = meta.mode;
    assert((((m >> 6u32) & 0o7) & 4 != 0) == (m & 0o400 != 0) && (((m >> 6u32) & 0o7) & 2 != 0) == (m
        & 0o200 != 0) && (((m >> 6u32) & 0o7) & 1 != 0) == (m & 0o100 != 0) && (((m >> 3u32) & 0o7)
        & 4 != 0) == (m & 0o040 != 0) && (((m >> 3u32) & 0o7) & 2 != 0) == (m & 0o020 != 0) && (((m
        >> 3u32) & 0o7) & 1 != 0) == (m & 0o010 != 0) && (((m >> 0u32) & 0o7) & 4 != 0) == (m
        & 0o004 != 0) && (((m >> 0u32) & 0o7) & 2 != 0) == (m & 0o002 != 0) && (((m >> 0u32) & 0o7)
        & 1 != 0) == (m & 0o001 != 0)) by (bit_vector);
    assert(4usize & 4usize != 0 && 4usize & 2usize == 0 && 4usize & 1usize == 0 && 2usize & 2usize
        != 0 && 2usize & 4usize == 0 && 2usize & 1usize == 0 && 1usize & 1usize != 0 && 1usize
        & 4usize == 0 && 1usize & 2usize == 0 && 0usize & 1usize == 0 && 0usize & 2usize == 0
        && 0usize & 4usize == 0) by (bit_vector);
}

/// Leave for several things is leave for each of them.
pub proof fn leave_for_all_is_leave_for_each(
    meta: &VfsMetadata,
    cred: &Credentials,
    identity: CredentialIdentity,
    a: usize,
    b: usize,
)
    ensures
        permitted(meta, cred, a | b, identity) <==> permitted(meta, cred, a, identity) && permitted(
            meta,
            cred,
            b,
            identity,
        ),
{
    assert(((a | b) & 4 != 0 <==> a & 4 != 0 || b & 4 != 0) && ((a | b) & 2 != 0 <==> a & 2 != 0 || b
        & 2 != 0) && ((a | b) & 1 != 0 <==> a & 1 != 0 || b & 1 != 0)) by (bit_vector);
}

/// What is told of a path agrees with what is found there: a directory is told as
/// one, anything else is not, and nothing is told of a path at which nothing is.
#[verifier::rlimit(40)]
pub proof fn told_kind_is_what_is_there<D: RawBlockDevice>(
    v: &Vfs,
    dev: &D,
    path: Seq<char>,
    now: Timestamp,
    m: VfsMetadata,
)
    requires
        v.told(dev, path, false, now) == Ok::<VfsMetadata, Fault>(m),
    ensures
        !v.removed(path),
        m.kind == VfsNodeKind::Directory ==> v.has_dir(dev, path) == Ok::<bool, Fault>(true),
        m.kind != VfsNodeKind::Directory ==> v.has_file(dev, path) == Ok::<bool, Fault>(true),
        !v.files.mem@.has_node(normalized(path)) ==> v.has_dir(dev, path) == Ok::<bool, Fault>(
            m.kind == VfsNodeKind::Directory,
        ) && v.has_file(dev, path) == Ok::<bool, Fault>(m.kind != VfsNodeKind::Directory),
{
    reveal(Vfs::told);
    assert(v.node_at(dev, path, false, now) == Ok::<VfsMetadata, Fault>(m));
    assert(!v.removed(path));
    if v.fat_told(dev, path) is None && !v.files.mem@.has_node(normalized(path)) {
        assert(v.ext4_told(dev, path, false) == Ok::<VfsMetadata, Fault>(m));
        assert(v.kind_at(path) is Ok && v.kind_at(path)->Ok_0 is Some);
        let kind = v.kind_at(path)->Ok_0->0;
        assert(m.kind == crate::fs::vfs::types::kind_told(kind));
    }
}

/// Of a path that is not there nothing is told.
pub proof fn nothing_is_told_of_nothing<D: RawBlockDevice>(
    v: &Vfs,
    dev: &D,
    path: Seq<char>,
    follow: bool,
    now: Timestamp,
)
    requires
        v.occupied(dev, path) == Ok::<bool, Fault>(false),
    ensures
        v.told(dev, path, follow, now) is Err,
        v.removed(path) ==> v.told(dev, path, follow, now) == Err::<VfsMetadata, Fault>(
            Fault::Sys(SysErrNo::ENOENT),
        ),
{
    reveal(Vfs::told);
}

/// A file of memory is told with the length of what it holds, its owner, its
/// permissions and its times; an open file of it is told alike.
pub proof fn memory_files_are_told<D: RawBlockDevice>(
    v: &Vfs,
    dev: &D,
    path: Seq<char>,
    follow: bool,
    now: Timestamp,
    meta: crate::fs::node::MemNodeMetadata,
)
    requires
        !v.removed(path),
        v.fat_told(dev, path) is None,
        v.fat_at(path) is None,
        !v.files.mem@.has_dir(normalized(path)),
        v.files.mem@.file_index(normalized(path)) is Some,
        v.files.mem@.meta_of(normalized(path)) == Some(meta),
        ({
            let name = v.files.mem@.files[v.files.mem@.file_index(normalized(path))->0].name;
            !crate::fs::fd::handle::names_null(name) && !crate::fs::fd::handle::names_zero(name)
                && v.numbers_at(name) is None
        }),
    ensures
        v.told(dev, path, follow, now) is Ok,
        ({
            let told = v.told(dev, path, follow, now)->Ok_0;
            let b = v.files.mem@.backing_of(normalized(path));
            &&& told.kind == VfsNodeKind::Regular
            &&& told.size == b.content.len() as u64
            &&& told.mode & 0o7777 == meta.mode & 0o7777
            &&& told.mode & 0o170000 == 0o100000
            &&& told.uid == meta.uid && told.gid == meta.gid
            &&& told.mtime_sec == b.times.mtime_sec && told.mtime_nsec == b.times.mtime_nsec
            &&& told.atime_sec == b.times.atime_sec && told.atime_nsec == b.times.atime_nsec
            &&& told.ctime_sec == b.times.ctime_sec && told.ctime_nsec == b.times.ctime_nsec
            &&& told.nlink >= 1
        }),
        forall|h: crate::fs::fd::handle::MemHandle|
            h.linked && normalized(h.name@) == normalized(path) ==> #[trigger] v.fd_told(
                dev,
                &FileDescriptor::MemFile(h),
                now,
            ) == v.told(dev, path, follow, now),
{
    reveal(Vfs::told);
    let p = meta.mode;
    assert((0o100000u32 | (p & 0o7777)) & 0o7777 == p & 0o7777 && (0o100000u32 | (p & 0o7777))
        & 0o170000 == 0o100000) by (bit_vector);
}

/// A node of the volume is told by its path as by its inode: the same size, owner,
/// permissions and times, also of an open file.
pub proof fn volume_nodes_are_told<D: RawBlockDevice>(
    v: &Vfs,
    dev: &D,
    path: Seq<char>,
    now: Timestamp,
    ino: u32,
    kind: Ext4NodeKind,
    m: Ext4Metadata,
)
    requires
        !v.removed(path),
        v.fat_told(dev, path) is None,
        !v.files.mem@.has_node(normalized(path)),
        !v.in_tmpfs(path),
        v.files.vol.names.mounted,
        v.files.vol.names.lookup_spec(path) == Ok::<Found, Load>(Some((ino, kind))),
        v.files.vol.told(ino) == Ok::<Ext4Metadata, Fault>(m),
    ensures
        v.told(dev, path, false, now) is Ok,
        ({
            let told = v.told(dev, path, false, now)->Ok_0;
            &&& told.ino == ino
            &&& told.size == m.size && told.mode == m.mode && told.nlink == m.nlink && told.uid
                == m.uid && told.gid == m.gid
            &&& told.mtime_sec == m.mtime_sec && told.mtime_nsec == m.mtime_nsec
            &&& told.atime_sec == m.atime_sec && told.atime_nsec == m.atime_nsec
            &&& told.ctime_sec == m.ctime_sec && told.ctime_nsec == m.ctime_nsec
            &&& told.kind == VfsNodeKind::Directory <==> kind == Ext4NodeKind::Directory
            &&& told.kind == VfsNodeKind::Regular <==> kind == Ext4NodeKind::Regular
            &&& told.kind == VfsNodeKind::Symlink <==> kind == Ext4NodeKind::Symlink
            &&& forall|fd: FileDescriptor|
                fd is Ext4Regular && fd->Ext4Regular_ino == ino ==> (#[trigger] v.fd_told(
                    dev,
                    &fd,
                    now,
                )) is Ok && v.fd_told(dev, &fd, now)->Ok_0.size == m.size && v.fd_told(
                    dev,
                    &fd,
                    now,
                )->Ok_0.mode == m.mode && v.fd_told(dev, &fd, now)->Ok_0.uid == m.uid
            &&& told.blocks * 512 >= told.size || told.size > u64::MAX - 511
        }),
{
    reveal(Vfs::told);
}

/// Following a link at the end of a path tells of what it leads to, and not
/// following it tells of the link itself.
pub proof fn links_are_followed_if_asked<D: RawBlockDevice>(
    v: &Vfs,
    dev: &D,
    path: Seq<char>,
    now: Timestamp,
    end: Seq<char>,
)
    requires
        v.shows_link(path),
        v.fat_told(dev, path) is None,
        v.ending(path, false) == Ok::<Seq<char>, Fault>(end),
    ensures
        !v.shows_link(end) || v.files.mem@.symlinks.contains_key(normalized(end)) ==> v.told(
            dev,
            path,
            true,
            now,
        ) == v.node_at(dev, end, true, now),
        v.told(dev, path, false, now) is Ok,
        v.told(dev, path, false, now)->Ok_0.kind == VfsNodeKind::Symlink,
        v.told(dev, path, false, now)->Ok_0.mode & 0o170000 == 0o120000,
{
    reveal(Vfs::told);
    let n = normalized(path);
    let p = v.files.mem@.meta_or(n, 0o777).mode;
    assert((0o120000u32 | (p & 0o7777)) & 0o170000 == 0o120000) by (bit_vector);
}

/// A path can be reached only by a task that may search every directory in front
/// of it.
pub proof fn every_directory_is_searched<D: RawBlockDevice>(
    v: &Vfs,
    dev: &D,
    names: Seq<Seq<char>>,
    n: nat,
    identity: CredentialIdentity,
    caller: &Caller,
    i: int,
)
    requires
        v.searchable(dev, names, n, identity, caller) is Ok,
        0 < i <= n,
    ensures
        v.told(dev, render(true, names.take(i)), true, caller.now) is Ok,
        permitted(
            &v.told(dev, render(true, names.take(i)), true, caller.now)->Ok_0,
            &caller.cred,
            X_OK,
            identity,
        ),
    decreases n,
{
    if i < n {
        every_directory_is_searched(v, dev, names, (n - 1) as nat, identity, caller, i);
    }
}

/// A path that may be used can be reached: all directories in front of its last
/// name may be searched, and the node itself gives leave.
pub proof fn use_needs_leave_all_along<D: RawBlockDevice>(
    v: &Vfs,
    dev: &D,
    path: Seq<char>,
    follow: bool,
    access: usize,
    identity: CredentialIdentity,
    caller: &Caller,
    i: int,
)
    requires
        v.usable(dev, path, follow, access, identity, caller) is Ok,
    ensures
        v.told(dev, path, follow, caller.now) is Ok,
        permitted(
            &v.told(dev, path, follow, caller.now)->Ok_0,
            &caller.cred,
            access,
            identity,
        ),
        0 < i < parts_of(normalized(path)).len() ==> {
            let above = v.told(
                dev,
                render(true, parts_of(normalized(path)).take(i)),
                true,
                caller.now,
            );
            above is Ok && permitted(&above->Ok_0, &caller.cred, X_OK, identity)
        },
{
    let names = parts_of(normalized(path));
    if 0 < i < names.len() {
        every_directory_is_searched(v, dev, names, (names.len() - 1) as nat, identity, caller, i);
    }
}

/// Something is made only in a directory that may be written to and searched.
pub proof fn making_needs_leave<D: RawBlockDevice>(
    v: &Vfs,
    dev: &D,
    parent: Seq<char>,
    caller: &Caller,
)
    requires
        v.may_create(dev, parent, caller) is Ok,
    ensures
        v.told(dev, parent, true, caller.now) is Ok,
        ({
            let meta = v.told(dev, parent, true, caller.now)->Ok_0;
            &&& meta.kind == VfsNodeKind::Directory
            &&& permitted(&meta, &caller.cred, W_OK, CredentialIdentity::Filesystem)
            &&& permitted(&meta, &caller.cred, X_OK, CredentialIdentity::Filesystem)
        }),
        v.reachable(dev, parent, CredentialIdentity::Filesystem, caller) is Ok,
{
    let meta = v.told(dev, parent, true, caller.now)->Ok_0;
    leave_for_all_is_leave_for_each(
        &meta,
        &caller.cred,
        CredentialIdentity::Filesystem,
        W_OK,
        X_OK,
    );
}

/// A file of memory has as many links as it has names.
pub proof fn names_are_counted(m: MemFsModel, name: Seq<char>, other: Seq<char>)
    requires
        m.file_index(name) is Some,
        m.file_index(other) is Some,
        m.files[m.file_index(name)->0].backing == m.files[m.file_index(other)->0].backing,
    ensures
        m.link_count(name) == m.link_count(other),
        sharers(m.files, m.files[m.file_index(name)->0].backing) <= u32::MAX ==> m.link_count(name)
            == m.files.filter(
            |f: crate::fs::memfs::model::FileModel|
                f.backing == m.files[m.file_index(name)->0].backing,
        ).len() || m.link_count(name) == 1,
{
    lemma_sharers_filter(m.files, m.files[m.file_index(name)->0].backing);
}

proof fn lemma_sharers_filter(files: Seq<crate::fs::memfs::model::FileModel>, backing: int)
    ensures
        sharers(files, backing) == files.filter(
            |f: crate::fs::memfs::model::FileModel| f.backing == backing,
        ).len(),
    decreases files.len(),
{
    reveal(Seq::filter);
    if files.len() > 0 {
        lemma_sharers_filter(files.drop_last(), backing);
    }
}

} // verus!
