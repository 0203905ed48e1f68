//! What holds of the flags of files, and of the tree that is set up.
use vstd::prelude::*;

use crate::errno::SysErrNo;
use crate::fs::memfs::model::{leading_names, FileModel, MemFsModel};
use crate::fs::node::MemNodeMetadata;
use crate::fs::path::{join, normalize_is_idempotent, normalized};
use crate::task::{Caller, Credentials};

verus! {

proof fn lemma_flags(m: MemFsModel, names: Seq<FileModel>, backing: int, flags: u32, i: int)
    requires
        0 <= i < names.len(),
        names[i].backing == backing,
    ensures
        ({
            let after = m.with_flags(names, backing, flags);
            &&& after.metadata.contains_key(names[i].name)
            &&& after.metadata[names[i].name].flags == flags
        }),
    decreases names.len(),
{
    let front = names.drop_last();
    let last = names.last();
    let before = m.with_flags(front, backing, flags);
    if i < front.len() {
        assert(front[i] == names[i]);
        lemma_flags(m, front, backing, flags, i);
    }
}

proof fn lemma_flags_only(m: MemFsModel, names: Seq<FileModel>, backing: int, flags: u32)
    ensures
        ({
            let after = m.with_flags(names, backing, flags);
            &&& after.files == m.files && after.backings == m.backings && after.dirs == m.dirs
            &&& after.symlinks == m.symlinks && after.specials == m.specials && after.xattrs
                == m.xattrs
        }),
    decreases names.len(),
{
    if names.len() > 0 {
        lemma_flags_only(m, names.drop_last(), backing, flags);
    }
}

/// Flags that are set on a file are recorded under each of its names, those set on
/// anything else under its name; contents and targets stay. Nothing is set where
/// nothing is.
pub proof fn set_flags_are_recorded(m: MemFsModel, path: Seq<char>, flags: u32, i: int)
    ensures
        ({
            let (after, r) = m.set_file_flags(path, flags);
            let n = normalized(path);
            &&& !m.has_node(n) ==> r == Err::<(), SysErrNo>(SysErrNo::ENOENT) && after == m
            &&& m.has_node(n) ==> r is Ok
            &&& r is Ok && m.file_index(n) is None ==> after.metadata.contains_key(n)
                && after.metadata[n].flags == flags
            &&& r is Ok && m.file_index(n) is Some && 0 <= i < m.files.len()
                && m.files[i].backing == m.files[m.file_index(n)->0].backing
                ==> after.metadata.contains_key(m.files[i].name)
                && after.metadata[m.files[i].name].flags == flags
            &&& after.files == m.files && after.backings == m.backings && after.dirs == m.dirs
            &&& after.symlinks == m.symlinks && after.specials == m.specials
        }),
{
    let n = normalized(path);
    if m.file_index(n) is Some {
        let b = m.files[m.file_index(n)->0].backing;
        lemma_flags_only(m, m.files, b, flags);
        if 0 <= i < m.files.len() && m.files[i].backing == b {
            lemma_flags(m, m.files, b, flags, i);
        }
    }
}

proof fn lemma_entry_keeps(m: MemFsModel, n: Seq<char>, d: Seq<char>)
    ensures
        m.with_dir_entry(n).has_dir(n),
        m.has_dir(d) ==> m.with_dir_entry(n).has_dir(d),
{
    let after = m.with_dir_entry(n);
    if !m.has_dir(n) {
        assert(after.dirs[m.dirs.len() as int] == n);
        if m.has_dir(d) {
            let i = choose|i: int| 0 <= i < m.dirs.len() && m.dirs[i] == d;
            assert(after.dirs[i] == d);
        }
    }
}

proof fn lemma_dirs_keep(m: MemFsModel, names: Seq<Seq<char>>, d: Seq<char>)
    ensures
        m.has_dir(d) ==> m.with_dirs(names).has_dir(d),
    decreases names.len(),
{
    if names.len() > 0 {
        lemma_dirs_keep(m, names.drop_last(), d);
        let before = m.with_dirs(names.drop_last());
        let name = seq!['/'] + join(names);
        lemma_entry_keeps(before, name, d);
    }
}

/// A directory that was added is there, and no directory has gone.
pub proof fn an_added_dir_is_there(
    m: MemFsModel,
    caller: &Caller,
    path: Seq<char>,
    mode: u32,
    other: Seq<char>,
)
    ensures
        m.add_dir(caller, path).has_dir(normalized(path)),
        m.add_dir_with_mode(caller, path, mode).has_dir(normalized(path)),
        m.has_dir(other) ==> m.add_dir(caller, path).has_dir(other),
        m.has_dir(other) ==> m.add_dir_with_mode(caller, path, mode).has_dir(other),
{
    let n = normalized(path);
    normalize_is_idempotent(path);
    let names = leading_names(n);
    lemma_dirs_keep(m, names, other);
    let base = m.with_parents(n);
    lemma_entry_keeps(base.without_symlink(n), n, other);
    lemma_entry_keeps(base.without_symlink(n).without_special(n), n, other);
}

/// After a table of directories was set up below a root, each of them is there,
/// and so is all that was there before.
pub proof fn set_up_dirs_are_there(
    m: MemFsModel,
    caller: &Caller,
    root: Seq<char>,
    dirs: Seq<(Seq<char>, Option<u32>)>,
    i: int,
    other: Seq<char>,
)
    ensures
        0 <= i < dirs.len() ==> m.with_dir_table(caller, root, dirs).has_dir(
            normalized(root + dirs[i].0),
        ),
        m.has_dir(other) ==> m.with_dir_table(caller, root, dirs).has_dir(other),
    decreases dirs.len(),
{
    if dirs.len() > 0 {
        let front = dirs.drop_last();
        let (path, mode) = dirs.last();
        set_up_dirs_are_there(m, caller, root, front, i, other);
        let before = m.with_dir_table(caller, root, front);
        let bits = match mode {
            Some(bits) => bits,
            None => 0,
        };
        an_added_dir_is_there(before, caller, root + path, bits, other);
        if 0 <= i < front.len() {
            assert(front[i] == dirs[i]);
            an_added_dir_is_there(
                before,
                caller,
                root + path,
                bits,
                normalized(root + dirs[i].0),
            );
        }
    }
}

/// A new file or directory has the permissions that were asked for, and belongs to
/// the task that made it.
pub proof fn a_new_file_has_its_permissions(
    m: MemFsModel,
    caller: &Caller,
    path: Seq<char>,
    content: Seq<u8>,
    mode: u32,
)
    ensures
        ({
            let n = normalized(path);
            let file = m.add_file_with_mode(caller, path, content, mode).metadata;
            let dir = m.add_dir_with_mode(caller, path, mode).metadata;
            &&& file.contains_key(n) && file[n].mode & 0o1777 == mode & 0o1777
            &&& file[n].uid == caller.cred.fsuid
            &&& dir.contains_key(n) && dir[n].mode & 0o1777 == mode & 0o1777
        }),
{
    let n = normalized(path);
    normalize_is_idempotent(path);
    assert((mode & 0o7777) & 0o1777 == mode & 0o1777 && ((mode & 0o7777) & !0o2000u32) & 0o1777
        == mode & 0o1777 && ((mode & 0o7777) | 0o2000) & 0o1777 == mode & 0o1777) by (bit_vector);
}

/// In a directory that hands its group on, the bit by which a new file runs as its
/// group is kept only for a member of that group or the root; the other
/// permissions stay.
pub proof fn the_group_bit_needs_membership(cred: &Credentials, parent: MemNodeMetadata, mode: u32)
    requires
        parent.mode & 0o2000 != 0,
        mode & 0o2000 != 0,
    ensures
        ({
            let meta = MemNodeMetadata::child(cred, Some(parent), mode, false);
            let may = cred.root_capable || cred.fsgid == parent.gid || cred.groups@.contains(
                parent.gid,
            );
            &&& may ==> meta.mode == mode & 0o7777
            &&& !may ==> meta.mode & 0o2000 == 0 && meta.mode & 0o1777 == mode & 0o1777
            &&& meta.gid == parent.gid
        }),
{
    assert((mode & 0o7777) & 0o2000 == mode & 0o2000 && ((mode & 0o7777) & !0o2000u32) & 0o2000 == 0
        && ((mode & 0o7777) & !0o2000u32) & 0o1777 == mode & 0o1777) by (bit_vector);
}

} // verus!
