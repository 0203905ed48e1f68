//! How the link counts of inodes follow the entries of directories.
use vstd::prelude::*;

use crate::fs::ext4::movement::{lemma_at_push, lemma_parent_names, lemma_step};
use crate::fs::ext4::plans::{MovementModel, RemovalModel, RenameModel};
use crate::fs::ext4::sync::{dir_inodes_left, parents_left, Unlinking};
use crate::fs::ext4::types::{kind_of_mode, Ext4NodeKind};
use crate::fs::ext4::volume::{lookup_tells_the_disk, Ext4Names, Fault, Found, Load, TreeModel};
use crate::fs::path::{is_absolute, normalize_is_idempotent, normalized, parent_of, parts_of};

verus! {

impl TreeModel {
    /// Whether an inode is that of a directory.
    pub open spec fn known_as_dir(self, ino: u32) -> bool {
        self.inodes.contains_key(ino as u128) && kind_of_mode(self.inodes[ino as u128].mode)
            == Ext4NodeKind::Directory
    }

    /// The names of the directories in a directory.
    pub open spec fn subdirs(self, dir: u32) -> Set<Seq<char>> {
        Set::new(
            |n: Seq<char>|
                self.dirs[dir as u128].contains_key(n) && self.known_as_dir(
                    self.dirs[dir as u128][n].ino,
                ),
        )
    }

    /// A directory is counted by its own two entries and by that of each
    /// directory in it for the parent.
    pub open spec fn dir_counted(self, dir: u32) -> bool {
        &&& self.subdirs(dir).finite()
        &&& self.inodes[dir as u128].links == 2 + self.subdirs(dir).len()
    }

    /// The entries that name an inode: their directories and names.
    pub open spec fn entries_of(self, ino: u32) -> Set<(u128, Seq<char>)> {
        Set::new(
            |e: (u128, Seq<char>)|
                self.dirs.contains_key(e.0) && self.dirs[e.0].contains_key(e.1)
                    && self.dirs[e.0][e.1].ino == ino,
        )
    }

    /// A file is counted by the entries that name it.
    pub open spec fn file_counted(self, ino: u32) -> bool {
        &&& self.entries_of(ino).finite()
        &&& self.inodes[ino as u128].links == self.entries_of(ino).len()
    }
}

/// What a plan knows of the path that it was made for is so on disk.
proof fn lemma_place_on_disk(names: &Ext4Names, disk: TreeModel, path: Seq<char>, parent: u32)
    requires
        disk.is_sound(),
        names.tree().part_of(disk),
        names.paths_true(disk),
        is_absolute(path),
        normalized(path) == path,
        parts_of(path).len() > 0,
        names.lookup_spec(parent_of(path)) == Ok::<Found, Load>(
            Some((parent, Ext4NodeKind::Directory)),
        ),
    ensures
        names.lookup_spec(path) is Ok ==> names.lookup_spec(path) == disk.step(
            parent,
            parts_of(path).last(),
        ),
{
    let x = parts_of(path);
    lemma_parent_names(path);
    lookup_tells_the_disk(names, disk, parent_of(path));
    lookup_tells_the_disk(names, disk, path);
    assert(x.drop_last().push(x.last()) =~= x);
    lemma_at_push(disk, x.drop_last(), x.last());
    assert(disk.dir_at(x.drop_last()) == Some(parent));
}

/// A movement keeps the counts of both directories: where a directory gets
/// another parent, the old one has a link less and the new one a link more, and
/// its entry for the parent is made anew; otherwise no count changes.
pub proof fn moving_keeps_link_counts(
    names: &Ext4Names,
    disk: TreeModel,
    changed: TreeModel,
    from: Seq<char>,
    to: Seq<char>,
    no_replace: bool,
    m: MovementModel,
    now: u32,
)
    requires
        disk.is_sound(),
        names.tree().part_of(disk),
        names.paths_true(disk),
        is_absolute(normalized(from)),
        is_absolute(normalized(to)),
        names.rename_spec(from, to, no_replace) == Ok::<RenameModel, Fault>(RenameModel::Move(m)),
        disk.dirs.contains_key(m.from.parent_ino as u128),
        disk.dirs.contains_key(m.to.parent_ino as u128),
        disk.dir_counted(m.from.parent_ino),
        disk.dir_counted(m.to.parent_ino),
        disk.inodes[m.to.parent_ino as u128].links < u16::MAX,
        changed.same_kinds(disk),
        ({
            let less = disk.dirs_without(m.from.parent_ino, m.from.name);
            changed.dirs == less.insert(
                m.to.parent_ino as u128,
                less[m.to.parent_ino as u128].insert(
                    m.to.name,
                    disk.dirs[m.from.parent_ino as u128][m.from.name],
                ),
            )
        }),
        m.from.parent_ino == m.to.parent_ino ==> changed.inodes[m.from.parent_ino as u128].links
            == disk.inodes[m.from.parent_ino as u128].links,
        m.from.parent_ino != m.to.parent_ino ==> ({
            let left = parents_left(
                m.reparents,
                disk.inodes[m.from.parent_ino as u128],
                disk.inodes[m.to.parent_ino as u128],
                now,
            );
            changed.inodes[m.from.parent_ino as u128] == left.0
                && changed.inodes[m.to.parent_ino as u128] == left.1
        }),
    ensures
        changed.dir_counted(m.from.parent_ino),
        changed.dir_counted(m.to.parent_ino),
        m.reparents <==> m.from.parent_ino != m.to.parent_ino && kind_of_mode(
            disk.inodes[m.child_ino as u128].mode,
        ) == Ext4NodeKind::Directory,
        disk.dirs[m.from.parent_ino as u128][m.from.name].ino == m.child_ino,
{
    let a = normalized(from);
    let b = normalized(to);
    normalize_is_idempotent(from);
    normalize_is_idempotent(to);
    let p = m.from.parent_ino;
    let q = m.to.parent_ino;
    lemma_place_on_disk(names, disk, a, p);
    lemma_place_on_disk(names, disk, b, q);
    lemma_step(disk, p, m.from.name);
    lemma_step(disk, q, m.to.name);
    let child = disk.dirs[p as u128][m.from.name];
    assert(child.ino == m.child_ino);
    assert(disk.inodes.contains_key(child.ino as u128));
    let is_dir = disk.known_as_dir(child.ino);
    assert forall|ino: u32| #[trigger] changed.known_as_dir(ino) == disk.known_as_dir(ino) by {
        assert(changed.inodes.contains_key(ino as u128) == disk.inodes.contains_key(ino as u128));
    }
    let old_p = disk.subdirs(p);
    let old_q = disk.subdirs(q);
    assert(!old_q.contains(m.to.name));
    if p == q {
        let less = old_p.remove(m.from.name);
        if is_dir {
            assert(changed.subdirs(p) =~= less.insert(m.to.name));
            assert(old_p.contains(m.from.name));
        } else {
            assert(changed.subdirs(p) =~= old_p);
        }
    } else if is_dir {
        assert(changed.subdirs(p) =~= old_p.remove(m.from.name));
        assert(changed.subdirs(q) =~= old_q.insert(m.to.name));
        assert(old_p.contains(m.from.name));
    } else {
        assert(changed.subdirs(p) =~= old_p);
        assert(changed.subdirs(q) =~= old_q);
    }
}

/// Taking a name of a file away keeps its count, and the file goes for good
/// exactly when nothing names it any more and nobody has it open.
pub proof fn unlinking_keeps_link_counts(
    names: &Ext4Names,
    disk: TreeModel,
    changed: TreeModel,
    path: Seq<char>,
    u: &Unlinking,
    open: bool,
    now: u32,
)
    requires
        disk.is_sound(),
        names.tree().part_of(disk),
        names.paths_true(disk),
        is_absolute(normalized(path)),
        names.unlink_spec(path) == Ok::<RemovalModel, Fault>(u.removal@),
        u.delayed == (u.removal.links <= 1 && open),
        disk.dirs.contains_key(u.removal.place.parent_ino as u128),
        disk.file_counted(u.removal.child_ino),
        disk.inodes.contains_key(u.removal.child_ino as u128),
        changed.dirs == disk.dirs_without(u.removal.place.parent_ino, u.removal.place.name@),
        changed.inodes[u.removal.child_ino as u128] == u.inodes_left(
            disk.inodes[u.removal.place.parent_ino as u128],
            disk.inodes[u.removal.child_ino as u128],
            now,
        ).1,
    ensures
        changed.file_counted(u.removal.child_ino),
        u.frees_spec() <==> changed.entries_of(u.removal.child_ino).len() == 0 && !open,
        changed.inodes[u.removal.child_ino as u128].size
            == disk.inodes[u.removal.child_ino as u128].size,
{
    let n = normalized(path);
    normalize_is_idempotent(path);
    let place = u.removal.place@;
    let ino = u.removal.child_ino;
    lemma_place_on_disk(names, disk, n, place.parent_ino);
    lemma_step(disk, place.parent_ino, place.name);
    let e = (place.parent_ino as u128, place.name);
    let before = disk.entries_of(ino);
    assert(before.contains(e));
    assert(changed.entries_of(ino) =~= before.remove(e));
    assert(names.inodes@[ino as u128] == disk.inodes[ino as u128]) by {
        assert(names.tree().inodes.contains_key(ino as u128));
    }
}

/// Taking an empty directory away keeps the count of the one it was in.
pub proof fn removing_a_dir_keeps_link_counts(
    names: &Ext4Names,
    disk: TreeModel,
    changed: TreeModel,
    path: Seq<char>,
    r: RemovalModel,
    now: u32,
)
    requires
        disk.is_sound(),
        names.tree().part_of(disk),
        names.paths_true(disk),
        is_absolute(normalized(path)),
        names.remove_dir_spec(path) == Ok::<RemovalModel, Fault>(r),
        disk.dirs.contains_key(r.place.parent_ino as u128),
        disk.dir_counted(r.place.parent_ino),
        r.child_ino != r.place.parent_ino,
        changed.dirs == disk.dirs_without(r.place.parent_ino, r.place.name),
        changed.same_kinds(disk),
        changed.inodes[r.place.parent_ino as u128] == dir_inodes_left(
            disk.inodes[r.place.parent_ino as u128],
            disk.inodes[r.child_ino as u128],
            now,
        ).0,
        changed.inodes[r.child_ino as u128] == dir_inodes_left(
            disk.inodes[r.place.parent_ino as u128],
            disk.inodes[r.child_ino as u128],
            now,
        ).1,
        disk.dirs[r.child_ino as u128].dom().finite(),
    ensures
        changed.dir_counted(r.place.parent_ino),
        changed.inodes[r.child_ino as u128].links == 0,
        forall|n: Seq<char>| !(#[trigger] disk.dirs[r.child_ino as u128].contains_key(n)),
{
    let n = normalized(path);
    normalize_is_idempotent(path);
    let p = r.place.parent_ino;
    lemma_place_on_disk(names, disk, n, p);
    lemma_step(disk, p, r.place.name);
    assert forall|ino: u32| #[trigger] changed.known_as_dir(ino) == disk.known_as_dir(ino) by {
        assert(changed.inodes.contains_key(ino as u128) == disk.inodes.contains_key(ino as u128));
    }
    let before = disk.subdirs(p);
    assert(before.contains(r.place.name));
    assert(changed.subdirs(p) =~= before.remove(r.place.name));
    assert(names.tree().dirs.contains_key(r.child_ino as u128));
    assert(names.dirs@[r.child_ino as u128]@ == disk.dirs[r.child_ino as u128]);
    assert forall|x: Seq<char>| !(#[trigger] disk.dirs[r.child_ino as u128].contains_key(x)) by {
        if disk.dirs[r.child_ino as u128].contains_key(x) {
            assert(disk.dirs[r.child_ino as u128].dom().contains(x));
        }
    }
}

} // verus!
