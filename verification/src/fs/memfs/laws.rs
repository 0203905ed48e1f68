//! What holds of the in-memory file system as a whole.
use vstd::prelude::*;

use crate::errno::SysErrNo;
use crate::fs::content::{written, MAX_FILE_OFFSET};
use crate::fs::memfs::model::{leading_names, without_file, FileModel, MemFsModel};
use crate::fs::memfs::ops::lemma_no_file_named;
use crate::fs::memfs::store::{backings_exist, lemma_without_file};
use crate::fs::node::{FileTimes, MemSpecialKind};
use crate::fs::path::{descends, normalize_is_idempotent, normalized, parent_of};
use crate::task::Caller;
use crate::textmap::{lists, moved_keys, moved_path, moves};

verus! {

/// An operation that fails leaves the system as it was.
pub proof fn failed_operation_changes_nothing(
    m: MemFsModel,
    caller: &Caller,
    a: Seq<char>,
    b: Seq<char>,
    key: Seq<char>,
    value: Seq<u8>,
    flags: usize,
    offset: nat,
    kind: MemSpecialKind,
    mode: u32,
)
    ensures
        m.remove_file(a).1 is Err ==> m.remove_file(a).0 == m,
        m.remove_dir(a).1 is Err ==> m.remove_dir(a).0 == m,
        m.rename(a, b).1 is Err ==> m.rename(a, b).0 == m,
        m.link(a, b).1 is Err ==> m.link(a, b).0 == m,
        m.add_symlink(caller, a, b).1 is Err ==> m.add_symlink(caller, a, b).0 == m,
        m.add_special_with_mode(caller, a, kind, mode).1 is Err ==> m.add_special_with_mode(
            caller,
            a,
            kind,
            mode,
        ).0 == m,
        m.set_xattr(caller, a, key, value, flags).1 is Err ==> m.set_xattr(
            caller,
            a,
            key,
            value,
            flags,
        ).0 == m,
        m.remove_xattr(caller, a, key).1 is Err ==> m.remove_xattr(caller, a, key).0 == m,
        m.write_file_at(caller, a, offset, value).1 is Err ==> m.write_file_at(
            caller,
            a,
            offset,
            value,
        ).0 == m,
        m.set_mode(caller, a, mode).1 is Err ==> m.set_mode(caller, a, mode).0 == m,
{
}

/// Once removed, a file, link or special node is gone.
pub proof fn removed_file_is_gone(m: MemFsModel, path: Seq<char>)
    requires
        m.remove_file(path).1 is Ok,
    ensures
        ({
            let after = m.remove_file(path).0;
            let name = normalized(path);
            &&& after.file_index(name) is None
            &&& !after.symlinks.contains_key(name)
            &&& !after.specials.contains_key(name)
            &&& after.meta_of(name) is None
            &&& after.has_node(name) == m.has_dir(name)
            &&& after.remove_file(path).1 == Err::<(), SysErrNo>(SysErrNo::ENOENT)
        }),
{
    let after = m.remove_file(path).0;
    let name = normalized(path);
    lemma_without_file(m.files, name);
    lemma_no_file_named(after, name);
}

/// The last file of a name is found under it if it is the only one.
proof fn lemma_found_last(m: MemFsModel, name: Seq<char>)
    requires
        m.files.len() > 0,
        m.files.last().name == name,
        forall|i: int| 0 <= i < m.files.len() - 1 ==> (#[trigger] m.files[i]).name != name,
    ensures
        m.file_index(name) == Some(m.files.len() - 1),
{
    let last = m.files.len() - 1;
    assert(m.first_file(name, last));
    let c = choose|c: int| m.first_file(name, c);
    assert(m.first_file(name, c));
    if c < last {
        assert(m.files[c].name != name);
    }
}

/// A file that was added is found with the contents it was added with, however
/// the path is written.
pub proof fn added_file_is_found(m: MemFsModel, caller: &Caller, path: Seq<char>, content: Seq<u8>)
    ensures
        ({
            let after = m.add_file(caller, path, content);
            let name = normalized(path);
            &&& after.file_index(normalized(name)) is Some
            &&& after.backing_of(name).content == content
            &&& after.backing_of(name).times == FileTimes::at(caller.now)
            &&& after.meta_of(name) is Some
            &&& after.meta_of(name)->0.uid == caller.cred.fsuid
        }),
{
    let name = normalized(path);
    normalize_is_idempotent(path);
    let base = m.with_parents(name).without_symlink(name);
    let after = m.add_file(caller, path, content);
    lemma_without_file(base.files, name);
    let with = base.with_file(name, content, FileTimes::at(caller.now));
    assert(after.files == with.files);
    assert(after.backings == with.backings);
    assert forall|i: int| 0 <= i < after.files.len() - 1 implies (#[trigger] after.files[i]).name
        != name by {
        assert(after.files[i] == without_file(base.files, name)[i]);
    }
    lemma_found_last(after, name);
}

/// A file that was created with a mode is found with the contents it was
/// created with, and belongs to who created it.
pub proof fn created_file_is_found(
    m: MemFsModel,
    caller: &Caller,
    path: Seq<char>,
    content: Seq<u8>,
    mode: u32,
)
    ensures
        ({
            let after = m.add_file_with_mode(caller, path, content, mode);
            let name = normalized(path);
            &&& after.file_index(name) is Some
            &&& after.backing_of(name).content == content
            &&& after.backing_of(name).times == FileTimes::at(caller.now)
            &&& after.meta_of(name) is Some
            &&& after.meta_of(name)->0.uid == caller.cred.fsuid
            &&& !after.symlinks.contains_key(name)
            &&& !after.specials.contains_key(name)
        }),
{
    let name = normalized(path);
    let base = m.with_parents(name).without_symlink(name).without_special(name);
    let after = m.add_file_with_mode(caller, path, content, mode);
    lemma_without_file(base.files, name);
    let with = base.with_file(name, content, FileTimes::at(caller.now));
    assert(after.files == with.files);
    assert(after.backings == with.backings);
    assert forall|i: int| 0 <= i < after.files.len() - 1 implies (#[trigger] after.files[i]).name
        != name by {
        assert(after.files[i] == without_file(base.files, name)[i]);
    }
    lemma_found_last(after, name);
}

/// Two names of one file share its contents: what is written through one is
/// there through the other.
pub proof fn linked_names_share_contents(
    m: MemFsModel,
    caller: &Caller,
    a: Seq<char>,
    b: Seq<char>,
    offset: nat,
    buf: Seq<u8>,
)
    requires
        backings_exist(m),
        m.file_index(normalized(a)) is Some,
        m.link(a, b).1 is Ok,
        0 < buf.len(),
        offset + buf.len() <= MAX_FILE_OFFSET,
    ensures
        ({
            let linked = m.link(a, b).0;
            let written_b = linked.write_file_at(caller, b, offset, buf).0;
            &&& linked.backing_of(normalized(b)) == m.backing_of(normalized(a))
            &&& linked.backing_of(normalized(a)) == m.backing_of(normalized(a))
            &&& written_b.backing_of(normalized(a)) == written_b.backing_of(normalized(b))
            &&& written_b.backing_of(normalized(a)).content == written(
                m.backing_of(normalized(a)).content,
                offset,
                buf,
            )
        }),
{
    let from = normalized(a);
    let to = normalized(b);
    let linked = m.link(a, b).0;
    let i = m.file_index(from)->0;
    assert(m.first_file(from, i));
    assert(linked.files == m.files.push(
        FileModel { name: to, backing: m.files[i].backing, link_key: m.files[i].link_key },
    ));
    lemma_no_file_named(m, to);
    assert forall|k: int| 0 <= k < linked.files.len() - 1 implies (#[trigger] linked.files[k]).name
        != to by {
        assert(linked.files[k] == m.files[k]);
    }
    lemma_found_last(linked, to);
    assert(linked.first_file(from, i)) by {
        assert forall|j: int| 0 <= j < i implies (#[trigger] linked.files[j]).name != from by {
            assert(linked.files[j] == m.files[j]);
        }
    }
    let c = choose|c: int| linked.first_file(from, c);
    assert(linked.first_file(from, c));
    if c < i {
        assert(linked.files[c].name != from);
    } else if i < c {
        assert(linked.files[i].name != from);
    }
    assert(linked.file_index(from) == Some(i));
    let written_b = linked.write_file_at(caller, b, offset, buf).0;
    assert(written_b.files == linked.files);
    assert(written_b.file_index(from) == linked.file_index(from)) by {
        lemma_same_files(written_b, linked, from);
    }
    assert(written_b.file_index(to) == linked.file_index(to)) by {
        lemma_same_files(written_b, linked, to);
    }
    assert(0 <= m.files[i].backing < m.backings.len());
}

proof fn lemma_same_files(m: MemFsModel, n: MemFsModel, name: Seq<char>)
    requires
        m.files == n.files,
    ensures
        m.file_index(name) == n.file_index(name),
{
    if n.file_index(name) is Some {
        let i = n.file_index(name)->0;
        assert(n.first_file(name, i));
        assert(m.first_file(name, i));
        let c = choose|c: int| m.first_file(name, c);
        assert(m.first_file(name, c));
        if c < i {
            assert(n.files[c].name != name);
        } else if i < c {
            assert(m.files[i].name != name);
        }
    } else {
        if m.file_index(name) is Some {
            let c = choose|c: int| m.first_file(name, c);
            assert(m.first_file(name, c));
            assert(n.first_file(name, c));
        }
    }
}

/// A renamed file keeps its contents and what is recorded of it, and its old
/// name is free.
pub proof fn renamed_file_keeps_contents(m: MemFsModel, a: Seq<char>, b: Seq<char>)
    requires
        backings_exist(m),
        m.rename(a, b).1 is Ok,
        normalized(a) != normalized(b),
        !m.has_dir(normalized(a)),
        !m.specials.contains_key(normalized(a)),
        !m.symlinks.contains_key(normalized(a)),
    ensures
        ({
            let after = m.rename(a, b).0;
            let from = normalized(a);
            let to = normalized(b);
            &&& m.file_index(from) is Some
            &&& after.file_index(to) is Some
            &&& after.backing_of(to) == m.backing_of(from)
            &&& after.meta_of(to) == Some(m.meta_or_new(from, 0o666))
            &&& !after.has_node(from)
            &&& after.meta_of(from) is None
        }),
{
    let from = normalized(a);
    let to = normalized(b);
    let after = m.rename(a, b).0;
    let f = m.files[m.file_index(from)->0];
    let w1 = without_file(m.files, from);
    let w2 = without_file(w1, to);
    lemma_without_file(m.files, from);
    lemma_without_file(w1, to);
    assert(after.files == w2.push(
        FileModel { name: to, backing: f.backing, link_key: f.link_key },
    ));
    assert forall|i: int| 0 <= i < after.files.len() - 1 implies (#[trigger] after.files[i]).name
        != to by {
        assert(after.files[i] == w2[i]);
    }
    lemma_found_last(after, to);
    assert forall|i: int| 0 <= i < after.files.len() implies (#[trigger] after.files[i]).name
        != from by {
        if i < w2.len() {
            assert(after.files[i] == w2[i]);
            assert(w1.contains(w2[i]));
            let j = choose|j: int| 0 <= j < w1.len() && w1[j] == w2[i];
            assert(w1[j].name != from);
        }
    }
    lemma_no_file_named(after, from);
}

spec fn first_of(files: Seq<FileModel>, name: Seq<char>) -> Option<FileModel>
    decreases files.len(),
{
    if files.len() == 0 {
        None
    } else {
        match first_of(files.drop_last(), name) {
            Some(f) => Some(f),
            None => if files.last().name == name {
                Some(files.last())
            } else {
                None
            },
        }
    }
}

proof fn lemma_first_of_index(files: Seq<FileModel>, name: Seq<char>)
    ensures
        match first_of(files, name) {
            Some(f) => exists|i: int|
                0 <= i < files.len() && files[i] == f && f.name == name && (forall|j: int|
                    0 <= j < i ==> (#[trigger] files[j]).name != name),
            None => forall|j: int| 0 <= j < files.len() ==> (#[trigger] files[j]).name != name,
        },
    decreases files.len(),
{
    if files.len() > 0 {
        let front = files.drop_last();
        lemma_first_of_index(front, name);
        match first_of(front, name) {
            Some(f) => {
                let i = choose|i: int|
                    0 <= i < front.len() && front[i] == f && f.name == name && (forall|j: int|
                        0 <= j < i ==> (#[trigger] front[j]).name != name);
                assert forall|j: int| 0 <= j < i implies (#[trigger] files[j]).name != name by {
                    assert(files[j] == front[j]);
                }
                assert(files[i] == f);
            },
            None => {
                assert forall|j: int| 0 <= j < files.len() - 1 implies (#[trigger] files[j]).name
                    != name by {
                    assert(files[j] == front[j]);
                }
                if files.last().name == name {
                    assert(files[files.len() - 1] == files.last());
                }
            },
        }
    }
}

proof fn lemma_found_is_first(m: MemFsModel, name: Seq<char>)
    ensures
        match first_of(m.files, name) {
            Some(f) => m.file_index(name) is Some && m.files[m.file_index(name)->0] == f,
            None => m.file_index(name) is None,
        },
{
    lemma_first_of_index(m.files, name);
    match first_of(m.files, name) {
        Some(f) => {
            let i = choose|i: int|
                0 <= i < m.files.len() && m.files[i] == f && f.name == name && (forall|j: int|
                    0 <= j < i ==> (#[trigger] m.files[j]).name != name);
            assert(m.first_file(name, i));
            let k = m.file_index(name)->0;
            assert(m.first_file(name, k));
            if k < i {
                assert(m.files[k].name != name);
            } else if i < k {
                assert(m.files[i].name != name);
            }
        },
        None => {
            assert forall|i: int| !m.first_file(name, i) by {
                if m.first_file(name, i) {
                    assert(m.files[i].name != name);
                }
            }
        },
    }
}

proof fn lemma_first_without(files: Seq<FileModel>, gone: Seq<char>, name: Seq<char>)
    requires
        gone != name,
    ensures
        first_of(without_file(files, gone), name) == first_of(files, name),
    decreases files.len(),
{
    if files.len() > 0 {
        let front = files.drop_last();
        lemma_first_without(front, gone, name);
        if files.last().name != gone {
            let w = without_file(front, gone);
            assert(w.push(files.last()).drop_last() =~= w);
        }
    }
}

/// Renaming a file changes nothing of other files.
pub proof fn renaming_leaves_other_files(m: MemFsModel, a: Seq<char>, b: Seq<char>, other: Seq<char>)
    requires
        backings_exist(m),
        m.rename(a, b).1 is Ok,
        normalized(a) != normalized(b),
        !m.has_dir(normalized(a)),
        !m.specials.contains_key(normalized(a)),
        !m.symlinks.contains_key(normalized(a)),
        other != normalized(a),
        other != normalized(b),
    ensures
        ({
            let after = m.rename(a, b).0;
            &&& backings_exist(after)
            &&& after.dirs == m.dirs
            &&& after.file_index(other) is Some <==> m.file_index(other) is Some
            &&& m.file_index(other) is Some ==> after.backing_of(other) == m.backing_of(other)
            &&& after.meta_of(other) == m.meta_of(other)
        }),
{
    let from = normalized(a);
    let to = normalized(b);
    let after = m.rename(a, b).0;
    let f = m.files[m.file_index(from)->0];
    lemma_found_is_first(m, from);
    lemma_first_of_index(m.files, from);
    let w1 = without_file(m.files, from);
    let w2 = without_file(w1, to);
    let moved = FileModel { name: to, backing: f.backing, link_key: f.link_key };
    lemma_without_file(m.files, from);
    lemma_without_file(w1, to);
    assert(after.files == w2.push(moved));
    assert(after.files.drop_last() =~= w2);
    lemma_first_without(m.files, from, other);
    lemma_first_without(w1, to, other);
    lemma_found_is_first(m, other);
    lemma_found_is_first(after, other);
    assert forall|i: int| 0 <= i < after.files.len() implies 0 <= (
    #[trigger] after.files[i]).backing < after.backings.len() by {
        if i < w2.len() {
            assert(after.files[i] == w2[i]);
            assert(w1.contains(w2[i]));
            let j = choose|j: int| 0 <= j < w1.len() && w1[j] == w2[i];
            assert(m.files.contains(w1[j]));
        }
    }
}

/// Two files that are exchanged have each other's contents.
pub proof fn exchanged_files_swap_contents(m: MemFsModel, a: Seq<char>, b: Seq<char>)
    requires
        backings_exist(m),
        m.exchange(a, b).1 is Ok,
        normalized(a) != normalized(b),
        !m.has_dir(normalized(a)),
        !m.has_dir(normalized(b)),
        !m.specials.contains_key(normalized(a)),
        !m.specials.contains_key(normalized(b)),
        !m.symlinks.contains_key(normalized(a)),
        !m.symlinks.contains_key(normalized(b)),
    ensures
        ({
            let after = m.exchange(a, b).0;
            let x = normalized(a);
            let y = normalized(b);
            &&& m.file_index(x) is Some && m.file_index(y) is Some
            &&& after.file_index(x) is Some && after.file_index(y) is Some
            &&& after.backing_of(x) == m.backing_of(y)
            &&& after.backing_of(y) == m.backing_of(x)
        }),
{
    let x = normalized(a);
    let y = normalized(b);
    let attempt = choose|attempt: nat| m.first_spare(parent_of(x), attempt);
    let spare = MemFsModel::spare_name(parent_of(x), attempt);
    let z = normalized(spare);
    normalize_is_idempotent(a);
    normalize_is_idempotent(b);
    normalize_is_idempotent(spare);
    assert(m.first_spare(parent_of(x), attempt));
    assert(!m.has_node(z));
    let m1 = m.rename(x, spare).0;
    renamed_file_keeps_contents(m, x, spare);
    renaming_leaves_other_files(m, x, spare, y);
    let m2 = m1.rename(y, x).0;
    renamed_file_keeps_contents(m1, y, x);
    renaming_leaves_other_files(m1, y, x, z);
    renamed_file_keeps_contents(m2, spare, y);
    renaming_leaves_other_files(m2, spare, y, x);
}

/// An attribute that was set is read back.
pub proof fn set_attribute_is_read_back(
    m: MemFsModel,
    caller: &Caller,
    path: Seq<char>,
    key: Seq<char>,
    value: Seq<u8>,
    flags: usize,
)
    requires
        m.set_xattr(caller, path, key, value, flags).1 is Ok,
    ensures
        m.set_xattr(caller, path, key, value, flags).0.get_xattr(path, key) == Ok::<
            Seq<u8>,
            SysErrNo,
        >(value),
{
    let after = m.set_xattr(caller, path, key, value, flags).0;
    let name = normalized(path);
    lemma_same_files(after, m, name);
    assert(after.metadata == m.metadata);
}

/// An attribute that was taken away is no longer there.
pub proof fn removed_attribute_is_gone(
    m: MemFsModel,
    caller: &Caller,
    path: Seq<char>,
    key: Seq<char>,
)
    requires
        m.remove_xattr(caller, path, key).1 is Ok,
    ensures
        m.remove_xattr(caller, path, key).0.get_xattr(path, key) == Err::<Seq<u8>, SysErrNo>(
            SysErrNo::ENODATA,
        ),
{
    let after = m.remove_xattr(caller, path, key).0;
    lemma_same_files(after, m, normalized(path));
}

/// Renaming a directory in front of the keys of a table, where nothing is at
/// the new place yet: every key below the old place is found with its value at
/// the new one and no longer at the old, and all others stay as they are.
pub proof fn moved_keys_meaning<V>(
    first: Map<Seq<char>, V>,
    keys: Seq<Seq<char>>,
    from: Seq<char>,
    to: Seq<char>,
    with_self: bool,
)
    requires
        lists(keys, first.dom()),
        forall|k: Seq<char>| #[trigger] first.contains_key(k) ==> !moves(to, k, true),
    ensures
        forall|k: Seq<char>| #[trigger]
            first.contains_key(k) ==> (if moves(from, k, with_self) {
                &&& moved_keys(first, keys, from, to, with_self).contains_key(
                    moved_path(from, to, k),
                )
                &&& moved_keys(first, keys, from, to, with_self)[moved_path(from, to, k)]
                    == first[k]
                &&& !moved_keys(first, keys, from, to, with_self).contains_key(k)
            } else {
                &&& moved_keys(first, keys, from, to, with_self).contains_key(k)
                &&& moved_keys(first, keys, from, to, with_self)[k] == first[k]
            }),
        forall|q: Seq<char>| #[trigger]
            moved_keys(first, keys, from, to, with_self).contains_key(q) ==> (first.contains_key(q)
                && !moves(from, q, with_self)) || exists|k: Seq<char>|
                first.contains_key(k) && moves(from, k, with_self) && q == #[trigger] moved_path(
                    from,
                    to,
                    k,
                ),
{
    lemma_moved_prefix(first, keys, keys.len() as int, from, to, with_self);
    assert(keys.take(keys.len() as int) =~= keys);
    let after = moved_keys(first, keys, from, to, with_self);
    assert forall|k: Seq<char>| #[trigger] first.contains_key(k) implies (if moves(
        from,
        k,
        with_self,
    ) {
        &&& after.contains_key(moved_path(from, to, k))
        &&& after[moved_path(from, to, k)] == first[k]
        &&& !after.contains_key(k)
    } else {
        &&& after.contains_key(k)
        &&& after[k] == first[k]
    }) by {
        assert(keys.contains(k));
    }
}

proof fn lemma_moved_path_below(from: Seq<char>, to: Seq<char>, k: Seq<char>, with_self: bool)
    requires
        moves(from, k, with_self),
    ensures
        moves(to, moved_path(from, to, k), true),
{
    let q = moved_path(from, to, k);
    if descends(from, k) {
        assert(k.skip(from.len() as int)[0] == k.take(from.len() as int + 1)[from.len() as int]);
        assert(q.take(to.len() as int + 1) =~= to.push('/'));
    } else {
        assert(q =~= to);
    }
}

proof fn lemma_moved_path_injective(
    from: Seq<char>,
    to: Seq<char>,
    j: Seq<char>,
    k: Seq<char>,
    with_self: bool,
)
    requires
        moves(from, j, with_self),
        moves(from, k, with_self),
        moved_path(from, to, j) == moved_path(from, to, k),
    ensures
        j == k,
{
    let n = from.len() as int;
    let t = to.len() as int;
    assert(moved_path(from, to, j).skip(t) =~= j.skip(n));
    assert(moved_path(from, to, k).skip(t) =~= k.skip(n));
    assert(j.take(n) =~= from) by {
        if descends(from, j) {
            assert(j.take(n) =~= j.take(n + 1).take(n));
        }
    }
    assert(k.take(n) =~= from) by {
        if descends(from, k) {
            assert(k.take(n) =~= k.take(n + 1).take(n));
        }
    }
    assert(j =~= j.take(n) + j.skip(n));
    assert(k =~= k.take(n) + k.skip(n));
}

proof fn lemma_moved_prefix<V>(
    first: Map<Seq<char>, V>,
    keys: Seq<Seq<char>>,
    i: int,
    from: Seq<char>,
    to: Seq<char>,
    with_self: bool,
)
    requires
        lists(keys, first.dom()),
        forall|k: Seq<char>| #[trigger] first.contains_key(k) ==> !moves(to, k, true),
        0 <= i <= keys.len(),
    ensures
        forall|k: Seq<char>| #[trigger]
            first.contains_key(k) ==> (if moves(from, k, with_self) && keys.take(i).contains(k) {
                &&& moved_keys(first, keys.take(i), from, to, with_self).contains_key(
                    moved_path(from, to, k),
                )
                &&& moved_keys(first, keys.take(i), from, to, with_self)[moved_path(from, to, k)]
                    == first[k]
                &&& !moved_keys(first, keys.take(i), from, to, with_self).contains_key(k)
            } else {
                &&& moved_keys(first, keys.take(i), from, to, with_self).contains_key(k)
                &&& moved_keys(first, keys.take(i), from, to, with_self)[k] == first[k]
            }),
        forall|q: Seq<char>| #[trigger]
            moved_keys(first, keys.take(i), from, to, with_self).contains_key(q) ==> (
            first.contains_key(q) && !(moves(from, q, with_self) && keys.take(i).contains(q)))
                || exists|k: Seq<char>|
                first.contains_key(k) && moves(from, k, with_self) && q == #[trigger] moved_path(
                    from,
                    to,
                    k,
                ),
    decreases i,
{
    if i == 0 {
        assert(keys.take(0) =~= Seq::empty());
    } else {
        lemma_moved_prefix(first, keys, i - 1, from, to, with_self);
        let p = keys.take(i);
        let q = keys.take(i - 1);
        assert(p.drop_last() =~= q);
        let x = p.last();
        assert(x == keys[i - 1]);
        assert(keys.contains(x));
        assert(first.contains_key(x));
        let before = moved_keys(first, keys.take(i - 1), from, to, with_self);
        let after = moved_keys(first, p, from, to, with_self);
        assert(!q.contains(x)) by {
            if q.contains(x) {
                let j = choose|j: int| 0 <= j < q.len() && q[j] == x;
                assert(crate::text::text_lt(keys[j], keys[i - 1]));
                crate::text::lemma_text_lt_total(x, x);
            }
        }
        assert forall|k: Seq<char>| p.contains(k) <==> q.contains(k) || k == x by {
            if p.contains(k) {
                let j = choose|j: int| 0 <= j < p.len() && p[j] == k;
                if j < i - 1 {
                    assert(q[j] == k);
                }
            }
            if q.contains(k) {
                let j = choose|j: int| 0 <= j < q.len() && q[j] == k;
                assert(p[j] == k);
            }
            assert(p[i - 1] == x);
        }
        if moves(from, x, with_self) {
            let path = moved_path(from, to, x);
            lemma_moved_path_below(from, to, x, with_self);
            assert(!first.contains_key(path));
            assert forall|k: Seq<char>| #[trigger] first.contains_key(k) implies (if moves(
                from,
                k,
                with_self,
            ) && p.contains(k) {
                &&& after.contains_key(moved_path(from, to, k))
                &&& after[moved_path(from, to, k)] == first[k]
                &&& !after.contains_key(k)
            } else {
                &&& after.contains_key(k)
                &&& after[k] == first[k]
            }) by {
                assert(k != path);
                if moves(from, k, with_self) && k != x {
                    let kp = moved_path(from, to, k);
                    lemma_moved_path_below(from, to, k, with_self);
                    assert(kp != x);
                    if kp == path {
                        lemma_moved_path_injective(from, to, k, x, with_self);
                    }
                }
            }
        }
    }
}

proof fn lemma_dirs_keep_files(m: MemFsModel, names: Seq<Seq<char>>)
    ensures
        m.with_dirs(names).files == m.files,
        m.with_dirs(names).backings == m.backings,
    decreases names.len(),
{
    if names.len() > 0 {
        lemma_dirs_keep_files(m, names.drop_last());
    }
}

/// A file that is added takes the place of its own name only: every other file is
/// found as before and holds what it held.
pub proof fn adding_leaves_other_files(
    m: MemFsModel,
    caller: &Caller,
    path: Seq<char>,
    content: Seq<u8>,
    mode: u32,
    other: Seq<char>,
)
    requires
        backings_exist(m),
        other != normalized(path),
    ensures
        ({
            let a = m.add_file(caller, path, content);
            let b = m.add_file_with_mode(caller, path, content, mode);
            &&& backings_exist(a) && backings_exist(b)
            &&& a.file_index(other) is Some <==> m.file_index(other) is Some
            &&& b.file_index(other) is Some <==> m.file_index(other) is Some
            &&& m.file_index(other) is Some ==> a.backing_of(other) == m.backing_of(other)
                && b.backing_of(other) == m.backing_of(other)
        }),
{
    let name = normalized(path);
    lemma_dirs_keep_files(m, leading_names(name));
    let a = m.add_file(caller, path, content);
    let b = m.add_file_with_mode(caller, path, content, mode);
    let w = without_file(m.files, name);
    let new = FileModel { name, backing: m.backings.len() as int, link_key: name };
    lemma_without_file(m.files, name);
    assert(a.files == w.push(new) && b.files == w.push(new));
    assert(w.push(new).drop_last() =~= w);
    lemma_first_without(m.files, name, other);
    lemma_found_is_first(m, other);
    lemma_found_is_first(a, other);
    lemma_found_is_first(b, other);
    lemma_first_of_index(m.files, other);
    assert forall|i: int| 0 <= i < w.len() implies 0 <= (#[trigger] w[i]).backing
        < m.backings.len() by {
        assert(m.files.contains(w[i]));
    }
    assert forall|i: int| 0 <= i < a.files.len() implies 0 <= (#[trigger] a.files[i]).backing
        < a.backings.len() by {
        if i < w.len() {
            assert(a.files[i] == w[i]);
        }
    }
    assert forall|i: int| 0 <= i < b.files.len() implies 0 <= (#[trigger] b.files[i]).backing
        < b.backings.len() by {
        if i < w.len() {
            assert(b.files[i] == w[i]);
        }
    }
}

/// A file that is taken away takes no other with it: every other name is found as
/// before and holds what it held, a second name of the same file too.
pub proof fn removing_leaves_other_files(m: MemFsModel, path: Seq<char>, other: Seq<char>)
    requires
        other != normalized(path),
    ensures
        ({
            let after = m.remove_file(path).0;
            &&& after.file_index(other) is Some <==> m.file_index(other) is Some
            &&& m.file_index(other) is Some ==> after.backing_of(other) == m.backing_of(other)
            &&& after.symlinks.contains_key(other) <==> m.symlinks.contains_key(other)
            &&& after.specials.contains_key(other) <==> m.specials.contains_key(other)
            &&& after.dirs == m.dirs
            &&& after.meta_of(other) == m.meta_of(other)
        }),
{
    let name = normalized(path);
    let after = m.remove_file(path).0;
    lemma_first_without(m.files, name, other);
    lemma_found_is_first(m, other);
    lemma_found_is_first(after, other);
}

/// The programs that are brought along are there and hold what was given: each
/// under its name, unless a later one has the same.
pub proof fn programs_are_there(
    m: MemFsModel,
    caller: &Caller,
    programs: Seq<(Seq<char>, Seq<u8>)>,
    i: int,
)
    requires
        backings_exist(m),
        0 <= i < programs.len(),
        forall|j: int|
            i < j < programs.len() ==> normalized((#[trigger] programs[j]).0) != normalized(
                programs[i].0,
            ),
    ensures
        ({
            let after = m.with_programs(caller, programs);
            &&& backings_exist(after)
            &&& after.file_index(normalized(programs[i].0)) is Some
            &&& after.backing_of(normalized(programs[i].0)).content == programs[i].1
        }),
    decreases programs.len(),
{
    let front = programs.drop_last();
    let before = m.with_programs(caller, front);
    let (name, data) = programs.last();
    lemma_programs_keep(m, caller, front);
    if i < front.len() {
        assert forall|j: int| i < j < front.len() implies normalized((#[trigger] front[j]).0)
            != normalized(front[i].0) by {
            assert(front[j] == programs[j]);
        }
        programs_are_there(m, caller, front, i);
        assert(programs[programs.len() - 1] == programs.last());
        adding_leaves_other_files(before, caller, name, data, 0, normalized(programs[i].0));
    } else {
        normalize_is_idempotent(name);
        added_file_is_found(before, caller, name, data);
        let spare = normalized(name).push('/');
        assert(spare.len() != normalized(name).len());
        adding_leaves_other_files(before, caller, name, data, 0, spare);
    }
}

proof fn lemma_programs_keep(m: MemFsModel, caller: &Caller, programs: Seq<(Seq<char>, Seq<u8>)>)
    requires
        backings_exist(m),
    ensures
        backings_exist(m.with_programs(caller, programs)),
    decreases programs.len(),
{
    if programs.len() > 0 {
        let (name, data) = programs.last();
        lemma_programs_keep(m, caller, programs.drop_last());
        let spare = normalized(name).push('/');
        assert(spare.len() != normalized(name).len());
        adding_leaves_other_files(
            m.with_programs(caller, programs.drop_last()),
            caller,
            name,
            data,
            0,
            spare,
        );
    }
}

} // verus!
