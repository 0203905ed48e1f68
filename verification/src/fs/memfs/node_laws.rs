//! What is recorded of nodes, and what directories list.
use vstd::prelude::*;

use crate::errno::SysErrNo;
use crate::fs::memfs::model::{
    children, entries_sorted, entry_inserted, without_file, without_text, DirEntryModel, FileModel,
    MemFsModel,
};
use crate::fs::memfs::store::{backings_exist, lemma_without_file};
use crate::fs::node::{chown_only_clears_bits, MemNodeMetadata, MemSpecialKind};
use crate::fs::path::{child_of, descends, normalized, parent_of};
use crate::task::{Caller, Credentials};
use crate::text::text_lt;
use crate::textmap::{lists, listing};

verus! {

proof fn lemma_index(m: MemFsModel, n: Seq<char>)
    requires
        backings_exist(m),
        m.file_index(n) is Some,
    ensures
        m.first_file(n, m.file_index(n)->0),
        0 <= m.file_index(n)->0 < m.files.len(),
        0 <= m.files[m.file_index(n)->0].backing < m.backings.len(),
{
    let i = choose|i: int| m.first_file(n, i);
    assert(m.first_file(n, i));
}

proof fn lemma_same_index(a: MemFsModel, b: MemFsModel, n: Seq<char>)
    requires
        a.files == b.files,
    ensures
        a.file_index(n) == b.file_index(n),
{
    assert forall|i: int| a.first_file(n, i) == b.first_file(n, i) by {}
}

/// What is written to a file by its path is what the file then holds from the
/// offset on; what lay before stays, all other files stay, and the file has
/// changed now.
pub proof fn a_written_path_holds_the_bytes(
    m: MemFsModel,
    caller: &Caller,
    path: Seq<char>,
    offset: nat,
    buf: Seq<u8>,
    other: Seq<char>,
)
    requires
        backings_exist(m),
        buf.len() > 0,
    ensures
        ({
            let (after, r) = m.write_file_at(caller, path, offset, buf);
            let n = normalized(path);
            &&& m.file_index(n) is None ==> r == Err::<usize, SysErrNo>(SysErrNo::ENOENT) && after
                == m
            &&& m.file_index(n) is Some && offset + buf.len() > isize::MAX ==> r == Err::<
                usize,
                SysErrNo,
            >(SysErrNo::EFBIG) && after == m
            &&& m.file_index(n) is Some && offset + buf.len() <= isize::MAX ==> {
                let old = m.backing_of(n).content;
                let new = after.backing_of(n).content;
                &&& r == Ok::<usize, SysErrNo>(buf.len() as usize)
                &&& new.len() >= offset + buf.len()
                &&& forall|i: int| 0 <= i < buf.len() ==> #[trigger] new[offset + i] == buf[i]
                &&& forall|i: int|
                    0 <= i < offset ==> #[trigger] new[i] == (if i < old.len() {
                        old[i]
                    } else {
                        0
                    })
                &&& after.backing_of(n).times.mtime_sec == caller.now.sec
                &&& after.backing_of(n).times.ctime_sec == caller.now.sec
                &&& after.backing_of(n).times.atime_sec == m.backing_of(n).times.atime_sec
                &&& after.files == m.files && after.dirs == m.dirs && after.metadata == m.metadata
                &&& m.file_index(other) is Some && m.files[m.file_index(other)->0].backing
                    != m.files[m.file_index(n)->0].backing ==> after.backing_of(other)
                    == m.backing_of(other)
            }
        }),
{
    let n = normalized(path);
    let (after, r) = m.write_file_at(caller, path, offset, buf);
    if m.file_index(n) is Some {
        lemma_index(m, n);
        lemma_same_index(m, after, n);
        lemma_same_index(m, after, other);
        if m.file_index(other) is Some {
            lemma_index(m, other);
        }
    }
}

/// The owner of a node that is set is recorded, each part if given; the number of
/// the node and its flags stay, and a regular file loses the bit by which it runs
/// as its owner.
pub proof fn a_set_owner_is_recorded(
    m: MemFsModel,
    caller: &Caller,
    path: Seq<char>,
    uid: Option<u32>,
    gid: Option<u32>,
    old: MemNodeMetadata,
)
    requires
        m.has_node(normalized(path)),
        m.meta_of(normalized(path)) == Some(old),
    ensures
        ({
            let (after, r) = m.set_owner(caller, path, uid, gid);
            let new = after.meta_of(normalized(path));
            &&& r is Ok
            &&& new is Some
            &&& new->0.uid == (match uid {
                Some(u) => u,
                None => old.uid,
            })
            &&& new->0.gid == (match gid {
                Some(g) => g,
                None => old.gid,
            })
            &&& new->0.ino == old.ino && new->0.flags == old.flags
            &&& new->0.mode & 0o777 == old.mode & 0o777
            &&& m.file_index(normalized(path)) is Some && (uid is Some || gid is Some)
                ==> new->0.mode & 0o4000 == 0
            &&& m.file_index(normalized(path)) is None ==> new->0.mode == old.mode
            &&& after.files == m.files && after.dirs == m.dirs && after.symlinks == m.symlinks
        }),
{
    chown_only_clears_bits(
        old.mode,
        m.file_index(normalized(path)) is Some,
        uid is Some || gid is Some,
    );
}

/// Times of a file that are set are recorded, each if given; contents stay.
pub proof fn set_times_are_recorded(
    m: MemFsModel,
    caller: &Caller,
    path: Seq<char>,
    atime: Option<(isize, isize)>,
    mtime: Option<(isize, isize)>,
)
    requires
        backings_exist(m),
        m.file_index(normalized(path)) is Some,
    ensures
        ({
            let (after, r) = m.set_file_times(caller, path, atime, mtime);
            let old = m.backing_of(normalized(path));
            let new = after.backing_of(normalized(path));
            &&& r is Ok
            &&& (new.times.atime_sec, new.times.atime_nsec) == (match atime {
                Some(t) => t,
                None => (old.times.atime_sec, old.times.atime_nsec),
            })
            &&& (new.times.mtime_sec, new.times.mtime_nsec) == (match mtime {
                Some(t) => t,
                None => (old.times.mtime_sec, old.times.mtime_nsec),
            })
            &&& new.times.ctime_sec == caller.now.sec
            &&& new.content == old.content
        }),
{
    let n = normalized(path);
    let (after, r) = m.set_file_times(caller, path, atime, mtime);
    lemma_index(m, n);
    lemma_same_index(m, after, n);
}

/// A new node belongs to the task that made it, has the permissions that were
/// asked for and a number of its own. In a directory that hands its group on it
/// has that group.
pub proof fn a_new_node_belongs_to_its_maker(
    cred: &Credentials,
    parent: Option<MemNodeMetadata>,
    mode: u32,
    is_dir: bool,
)
    requires
        mode <= 0o1777,
    ensures
        ({
            let meta = MemNodeMetadata::child(cred, parent, mode, is_dir);
            let handed_on = parent is Some && parent->0.mode & 0o2000 != 0;
            &&& meta.uid == cred.fsuid
            &&& handed_on ==> meta.gid == parent->0.gid
            &&& !handed_on ==> meta.gid == cred.fsgid && meta.mode == mode
            &&& handed_on && is_dir ==> meta.mode == mode | 0o2000
            &&& handed_on && !is_dir ==> meta.mode == mode
        }),
{
    assert(mode & 0o7777 == mode && (mode & 0o2000) == 0) by (bit_vector)
        requires
            mode <= 0o1777u32,
    ;
}

/// A link or special node that was made is there, in a directory that was there,
/// at a name that was free; it has a number that no node had, as numbers are
/// given out one after the other.
pub proof fn a_new_node_is_there(
    m: MemFsModel,
    caller: &Caller,
    path: Seq<char>,
    target: Seq<char>,
    kind: MemSpecialKind,
    mode: u32,
)
    requires
        1 <= m.next_ino < u64::MAX,
    ensures
        ({
            let n = normalized(path);
            let (link, r) = m.add_symlink(caller, path, target);
            let (node, s) = m.add_special_with_mode(caller, path, kind, mode);
            &&& r is Ok <==> !m.has_node(n) && m.has_dir(normalized(parent_of(n)))
            &&& s is Ok <==> !m.has_node(n) && m.has_dir(normalized(parent_of(n)))
            &&& m.has_node(n) && m.has_dir(normalized(parent_of(n))) ==> r == Err::<(), SysErrNo>(
                SysErrNo::EEXIST,
            ) && s == Err::<(), SysErrNo>(SysErrNo::EEXIST)
            &&& r is Ok ==> link.symlinks.contains_key(n) && link.symlinks[n] == target
                && link.metadata[n].ino == m.next_ino && link.next_ino == m.next_ino + 1
                && link.metadata[n].uid == caller.cred.fsuid
            &&& s is Ok ==> node.specials.contains_key(n) && node.specials[n] == kind
                && node.metadata[n].ino == m.next_ino && node.next_ino == m.next_ino + 1
                && node.metadata[n].uid == caller.cred.fsuid
        }),
{
}

proof fn lemma_inserted_contains(sorted: Seq<DirEntryModel>, e: DirEntryModel, x: DirEntryModel)
    ensures
        entry_inserted(sorted, e).contains(x) <==> sorted.contains(x) || x == e,
        entry_inserted(sorted, e).len() == sorted.len() + 1,
    decreases sorted.len(),
{
    let out = entry_inserted(sorted, e);
    if sorted.len() > 0 && text_lt(e.name, sorted.last().name) {
        let front = sorted.drop_last();
        lemma_inserted_contains(front, e, x);
        let before = entry_inserted(front, e);
        assert(out =~= before.push(sorted.last()));
        lemma_push_contains(before, sorted.last(), x);
        lemma_push_contains(front, sorted.last(), x);
        assert(front.push(sorted.last()) =~= sorted);
    } else {
        lemma_push_contains(sorted, e, x);
    }
}

proof fn lemma_push_contains(s: Seq<DirEntryModel>, e: DirEntryModel, x: DirEntryModel)
    ensures
        s.push(e).contains(x) <==> s.contains(x) || x == e,
{
    let t = s.push(e);
    if s.contains(x) {
        let i = choose|i: int| 0 <= i < s.len() && s[i] == x;
        assert(t[i] == x);
    }
    if x == e {
        assert(t[s.len() as int] == x);
    }
    if t.contains(x) {
        let i = choose|i: int| 0 <= i < t.len() && t[i] == x;
        if i < s.len() {
            assert(s[i] == x);
        }
    }
}

proof fn lemma_sorted_contains(entries: Seq<DirEntryModel>, x: DirEntryModel)
    ensures
        entries_sorted(entries).contains(x) <==> entries.contains(x),
        entries_sorted(entries).len() == entries.len(),
    decreases entries.len(),
{
    if entries.len() > 0 {
        lemma_sorted_contains(entries.drop_last(), x);
        lemma_inserted_contains(entries_sorted(entries.drop_last()), entries.last(), x);
        lemma_push_contains(entries.drop_last(), entries.last(), x);
        assert(entries.drop_last().push(entries.last()) =~= entries);
    }
}

proof fn lemma_children(dir: Seq<char>, paths: Seq<Seq<char>>, is_dir: bool, x: DirEntryModel)
    ensures
        children(dir, paths, is_dir).contains(x) <==> x.is_dir == is_dir && exists|p: Seq<char>| #[trigger]
            paths.contains(p) && child_of(dir, p) == Some(x.name),
    decreases paths.len(),
{
    if paths.len() > 0 {
        let front = paths.drop_last();
        let p = paths.last();
        lemma_children(dir, front, is_dir, x);
        assert(paths.contains(p)) by {
            assert(paths[paths.len() - 1] == p);
        }
        let before = children(dir, front, is_dir);
        if child_of(dir, p) is Some {
            lemma_push_contains(
                before,
                DirEntryModel { name: child_of(dir, p)->0, is_dir },
                x,
            );
        }
        assert forall|q: Seq<char>| #[trigger] front.contains(q) implies paths.contains(q) by {
            let i = choose|i: int| 0 <= i < front.len() && front[i] == q;
            assert(paths[i] == q);
        }
        assert forall|q: Seq<char>| #[trigger] paths.contains(q) implies front.contains(q) || q
            == p by {
            let i = choose|i: int| 0 <= i < paths.len() && paths[i] == q;
            if i < front.len() {
                assert(front[i] == q);
            }
        }
    }
}

/// A directory lists exactly its own children: each directory in it as one, and
/// each file, link and special node as something else; nothing that lies deeper.
pub proof fn a_directory_lists_its_children(m: MemFsModel, dir: Seq<char>, name: Seq<char>, is_dir: bool)
    requires
        lists(listing(m.symlinks.dom()), m.symlinks.dom()),
        lists(listing(m.specials.dom()), m.specials.dom()),
    ensures
        m.entries(dir).contains(DirEntryModel { name, is_dir }) <==> exists|p: Seq<char>|
            (#[trigger] child_of(dir, p)) == Some(name) && (if is_dir {
                m.has_dir(p)
            } else {
                m.file_index(p) is Some || m.symlinks.contains_key(p) || m.specials.contains_key(p)
            }),
{
    let x = DirEntryModel { name, is_dir };
    let names = m.files.map_values(|f: FileModel| f.name);
    let links = listing(m.symlinks.dom());
    let nodes = listing(m.specials.dom());
    let a = children(dir, m.dirs, true);
    let b = children(dir, names, false);
    let c = children(dir, links, false);
    let d = children(dir, nodes, false);
    lemma_sorted_contains(a + b + c + d, x);
    lemma_children(dir, m.dirs, true, x);
    lemma_children(dir, names, false, x);
    lemma_children(dir, links, false, x);
    lemma_children(dir, nodes, false, x);
    lemma_concat_contains(a, b, x);
    lemma_concat_contains(a + b, c, x);
    lemma_concat_contains(a + b + c, d, x);
    assert forall|p: Seq<char>| #[trigger] names.contains(p) <==> m.file_index(p) is Some by {
        if names.contains(p) {
            let i = choose|i: int| 0 <= i < names.len() && names[i] == p;
            lemma_some_first(m, p, i);
        }
        if m.file_index(p) is Some {
            let i = choose|i: int| m.first_file(p, i);
            assert(m.first_file(p, i));
            assert(names[i] == p);
        }
    }
    assert forall|p: Seq<char>| #[trigger] links.contains(p) <==> m.symlinks.contains_key(p) by {
        assert(m.symlinks.dom().contains(p) <==> links.contains(p));
    }
    assert forall|p: Seq<char>| #[trigger] nodes.contains(p) <==> m.specials.contains_key(p) by {
        assert(m.specials.dom().contains(p) <==> nodes.contains(p));
    }
    if exists|p: Seq<char>|
        (#[trigger] child_of(dir, p)) == Some(name) && (if is_dir {
            m.has_dir(p)
        } else {
            m.file_index(p) is Some || m.symlinks.contains_key(p) || m.specials.contains_key(p)
        }) {
        let p = choose|p: Seq<char>|
            (#[trigger] child_of(dir, p)) == Some(name) && (if is_dir {
                m.has_dir(p)
            } else {
                m.file_index(p) is Some || m.symlinks.contains_key(p) || m.specials.contains_key(p)
            });
        assert(names.contains(p) <==> m.file_index(p) is Some);
        assert(links.contains(p) <==> m.symlinks.contains_key(p));
        assert(nodes.contains(p) <==> m.specials.contains_key(p));
    }
}

proof fn lemma_some_first(m: MemFsModel, name: Seq<char>, i: int)
    requires
        0 <= i < m.files.len(),
        m.files[i].name == name,
    ensures
        m.file_index(name) is Some,
    decreases i,
{
    if m.first_file(name, i) {
    } else {
        let j = choose|j: int| 0 <= j < i && (#[trigger] m.files[j]).name == name;
        lemma_some_first(m, name, j);
    }
}

proof fn lemma_concat_contains(a: Seq<DirEntryModel>, b: Seq<DirEntryModel>, x: DirEntryModel)
    ensures
        (a + b).contains(x) <==> a.contains(x) || b.contains(x),
{
    let s = a + b;
    if a.contains(x) {
        let i = choose|i: int| 0 <= i < a.len() && a[i] == x;
        assert(s[i] == x);
    }
    if b.contains(x) {
        let i = choose|i: int| 0 <= i < b.len() && b[i] == x;
        assert(s[a.len() + i] == x);
    }
    if s.contains(x) {
        let i = choose|i: int| 0 <= i < s.len() && s[i] == x;
        if i < a.len() {
            assert(a[i] == x);
        } else {
            assert(b[i - a.len()] == x);
        }
    }
}

/// A directory that was renamed has taken all below it along: each file keeps
/// what it holds and gets the new name of the directory in front of the rest of
/// its own; all other files keep their names.
pub proof fn a_moved_directory_takes_all_along(
    m: MemFsModel,
    a: Seq<char>,
    b: Seq<char>,
    i: int,
)
    requires
        m.rename(a, b).1 is Ok,
        normalized(a) != normalized(b),
        m.has_dir(normalized(a)),
        0 <= i < m.files.len(),
    ensures
        ({
            let after = m.rename(a, b).0;
            let from = normalized(a);
            let to = normalized(b);
            &&& after.files.len() == m.files.len()
            &&& after.backings == m.backings
            &&& after.files[i].backing == m.files[i].backing
            &&& descends(from, m.files[i].name) ==> after.files[i].name == to
                + m.files[i].name.skip(from.len() as int)
            &&& !descends(from, m.files[i].name) ==> after.files[i] == m.files[i]
            &&& after.has_dir(to)
            &&& !descends(from, to)
            &&& m.has_dir(to) ==> forall|j: int|
                0 <= j < m.files.len() ==> !descends(to, (#[trigger] m.files[j]).name)
        }),
{
    let from = normalized(a);
    let to = normalized(b);
    let after = m.rename(a, b).0;
    let base = if m.has_dir(to) {
        m.without_dir(to)
    } else {
        m
    };
    assert(base.dirs.contains(from)) by {
        if m.has_dir(to) {
            lemma_without_text(m.dirs, to, from);
        }
    }
    let k = choose|k: int| 0 <= k < base.dirs.len() && base.dirs[k] == from;
    assert(after.dirs[k] == to + from.skip(from.len() as int));
    assert(to + from.skip(from.len() as int) =~= to);
    if m.has_dir(to) {
        assert(!m.has_entries(to));
        assert forall|j: int| 0 <= j < m.files.len() implies !descends(
            to,
            (#[trigger] m.files[j]).name,
        ) by {}
    }
}

proof fn lemma_without_text(dirs: Seq<Seq<char>>, gone: Seq<char>, name: Seq<char>)
    requires
        dirs.contains(name),
        name != gone,
    ensures
        without_text(dirs, gone).contains(name),
    decreases dirs.len(),
{
    let i = choose|i: int| 0 <= i < dirs.len() && dirs[i] == name;
    let out = without_text(dirs, gone);
    if dirs.last() == name {
        assert(out.last() == name);
        assert(out[out.len() - 1] == name);
    } else {
        assert(dirs.drop_last()[i] == name);
        lemma_without_text(dirs.drop_last(), gone, name);
        let before = without_text(dirs.drop_last(), gone);
        let j = choose|j: int| 0 <= j < before.len() && before[j] == name;
        assert(out[j] == name);
    }
}

/// A link or special node that was renamed is found under its new name as it was,
/// and not under the old one.
pub proof fn a_renamed_link_is_found(m: MemFsModel, a: Seq<char>, b: Seq<char>)
    requires
        m.rename(a, b).1 is Ok,
        normalized(a) != normalized(b),
        !m.has_dir(normalized(a)),
    ensures
        ({
            let after = m.rename(a, b).0;
            let from = normalized(a);
            let to = normalized(b);
            &&& m.specials.contains_key(from) ==> after.specials.contains_key(to)
                && after.specials[to] == m.specials[from] && !after.specials.contains_key(from)
                && !after.symlinks.contains_key(to) && after.file_index(to) is None
            &&& !m.specials.contains_key(from) && m.symlinks.contains_key(from)
                ==> after.symlinks.contains_key(to) && after.symlinks[to] == m.symlinks[from]
                && !after.symlinks.contains_key(from) && after.file_index(to) is None
            &&& !m.has_dir(to)
            &&& m.has_node(from)
        }),
{
    let from = normalized(a);
    let to = normalized(b);
    lemma_without_file(m.files, to);
    let after = m.rename(a, b).0;
    if m.specials.contains_key(from) || m.symlinks.contains_key(from) {
        if after.file_index(to) is Some {
            let i = choose|i: int| after.first_file(to, i);
            assert(after.first_file(to, i));
            assert(after.files == without_file(m.files, to));
        }
    }
}

/// A second name of a link or special node is another of the same; nothing but a
/// directory is refused one, and it gets none where something is already.
pub proof fn a_second_name_is_the_same(m: MemFsModel, a: Seq<char>, b: Seq<char>)
    ensures
        ({
            let (after, r) = m.link(a, b);
            let from = normalized(a);
            let to = normalized(b);
            &&& m.has_dir(from) ==> r == Err::<(), SysErrNo>(SysErrNo::EPERM)
            &&& !m.has_dir(from) && m.has_node(to) ==> r == Err::<(), SysErrNo>(SysErrNo::EEXIST)
            &&& r is Ok ==> m.has_node(from) && !m.has_node(to) && m.has_dir(
                normalized(parent_of(to)),
            )
            &&& r is Ok && m.file_index(from) is None && m.symlinks.contains_key(from)
                ==> after.symlinks[to] == m.symlinks[from] && after.symlinks[from]
                == m.symlinks[from]
            &&& r is Ok && m.meta_of(from) is Some ==> after.meta_of(to) == m.meta_of(from)
                && after.meta_of(from) == m.meta_of(from)
            &&& r is Err ==> after == m
        }),
{
}

} // verus!
