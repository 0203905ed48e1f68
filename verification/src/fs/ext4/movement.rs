//! What moving and exchanging entries of directories does to where paths lead.
use vstd::prelude::*;

use crate::fs::ext4::plans::{exchange_name, MovementModel, RenameModel, EXCHANGE_ATTEMPTS};
use crate::fs::ext4::types::{kind_of_mode, Ext4NodeKind};
use crate::fs::ext4::volume::{
    lookup_tells_the_disk, DirChild, Ext4Names, Fault, Found, Load, TreeModel, ROOT_INODE,
};
use crate::fs::path::{
    all_names, descendant_continues_names, is_absolute, join, lemma_parts_are_names,
    lemma_parts_of_render, normalize_is_idempotent, normalized, parent_of, parts_of, render,
};
use crate::text::{decimal, digit};
use crate::textmap::in_tree;

verus! {

/// Whether a path goes through another, or is it.
pub open spec fn goes_through(path: Seq<Seq<char>>, front: Seq<Seq<char>>) -> bool {
    front.len() <= path.len() && path.take(front.len() as int) == front
}

impl TreeModel {
    /// Where a path leads from the root.
    pub open spec fn at(self, path: Seq<Seq<char>>) -> Result<Found, Load> {
        self.walk(ROOT_INODE, path)
    }

    /// The directory that a path leads to.
    pub open spec fn dir_at(self, path: Seq<Seq<char>>) -> Option<u32> {
        match self.at(path) {
            Ok(Some((ino, kind))) => if kind == Ext4NodeKind::Directory {
                Some(ino)
            } else {
                None
            },
            _ => None,
        }
    }

    /// Where one name leads from a directory.
    pub open spec fn step(self, ino: u32, name: Seq<char>) -> Result<Found, Load> {
        self.walk(ino, seq![name])
    }

    /// The root is a directory, and to each directory leads one path only.
    pub open spec fn is_sound(self) -> bool {
        &&& self.inodes.contains_key(ROOT_INODE as u128)
        &&& kind_of_mode(self.inodes[ROOT_INODE as u128].mode) == Ext4NodeKind::Directory
        &&& forall|x: Seq<Seq<char>>, y: Seq<Seq<char>>|
            #![trigger self.dir_at(x), self.dir_at(y)]
            self.dir_at(x) is Some && self.dir_at(x) == self.dir_at(y) ==> x == y
    }

    /// The same inodes are known, and of the same kinds.
    pub open spec fn same_kinds(self, other: TreeModel) -> bool {
        forall|k: u128| #[trigger]
            self.inodes.contains_key(k) == other.inodes.contains_key(k) && (
            other.inodes.contains_key(k) ==> kind_of_mode(self.inodes[k].mode) == kind_of_mode(
                other.inodes[k].mode,
            ))
    }

    /// The directories without an entry.
    pub open spec fn dirs_without(self, dir: u32, name: Seq<char>) -> Map<
        u128,
        Map<Seq<char>, DirChild>,
    > {
        self.dirs.insert(dir as u128, self.dirs[dir as u128].remove(name))
    }

    /// An entry can be moved: it is there, nothing has its new path, both
    /// directories are there, and it does not go below itself.
    pub open spec fn can_move(self, from: Seq<Seq<char>>, to: Seq<Seq<char>>) -> bool {
        &&& from.len() > 0 && to.len() > 0
        &&& self.dir_at(from.drop_last()) is Some
        &&& self.dir_at(to.drop_last()) is Some
        &&& self.at(from) is Ok && self.at(from)->Ok_0 is Some
        &&& self.at(to) == Ok::<Found, Load>(None)
        &&& !goes_through(to, from)
    }

    /// The tree in which an entry has moved.
    pub open spec fn moved(self, was: TreeModel, from: Seq<Seq<char>>, to: Seq<Seq<char>>) -> bool {
        let a = was.dir_at(from.drop_last())->0;
        let b = was.dir_at(to.drop_last())->0;
        let less = was.dirs_without(a, from.last());
        &&& self.same_kinds(was)
        &&& self.dirs == less.insert(
            b as u128,
            less[b as u128].insert(to.last(), was.dirs[a as u128][from.last()]),
        )
    }
}

pub(crate) proof fn lemma_walk_push(t: TreeModel, from: u32, xs: Seq<Seq<char>>, n: Seq<char>)
    requires
        t.inodes.contains_key(from as u128),
        kind_of_mode(t.inodes[from as u128].mode) == Ext4NodeKind::Directory,
    ensures
        t.walk(from, xs.push(n)) == (match t.walk(from, xs) {
            Err(load) => Err::<Found, Load>(load),
            Ok(None) => Ok(None),
            Ok(Some((i, k))) => if k != Ext4NodeKind::Directory {
                Ok(None)
            } else {
                t.step(i, n)
            },
        }),
    decreases xs.len(),
{
    reveal_with_fuel(TreeModel::walk, 3);
    if xs.len() == 0 {
        assert(xs.push(n) =~= seq![n]);
    } else {
        let all = xs.push(n);
        assert(all[0] == xs[0]);
        assert(all.drop_first() =~= xs.drop_first().push(n));
        if t.dirs.contains_key(from as u128) && t.dirs[from as u128].contains_key(xs[0]) {
            let ino = t.dirs[from as u128][xs[0]].ino;
            if t.inodes.contains_key(ino as u128) && kind_of_mode(t.inodes[ino as u128].mode)
                == Ext4NodeKind::Directory {
                lemma_walk_push(t, ino, xs.drop_first(), n);
            } else if xs.len() == 1 {
                assert(xs.drop_first() =~= Seq::empty());
            }
        }
    }
}

pub(crate) proof fn lemma_step(t: TreeModel, ino: u32, name: Seq<char>)
    ensures
        t.step(ino, name) == (if !t.dirs.contains_key(ino as u128) {
            Err::<Found, Load>(Load::Dir(ino))
        } else if !t.dirs[ino as u128].contains_key(name) {
            Ok(None)
        } else {
            let child = t.dirs[ino as u128][name].ino;
            if t.inodes.contains_key(child as u128) {
                Ok(Some((child, kind_of_mode(t.inodes[child as u128].mode))))
            } else {
                Err(Load::Inode(child))
            }
        }),
{
    reveal_with_fuel(TreeModel::walk, 2);
    let one = seq![name];
    assert(one.drop_first() =~= Seq::<Seq<char>>::empty());
}

/// The last step of a path: where it leads from the directory before it.
pub(crate) proof fn lemma_at_push(t: TreeModel, xs: Seq<Seq<char>>, n: Seq<char>)
    requires
        t.is_sound(),
    ensures
        t.dir_at(xs) is Some ==> t.at(xs.push(n)) == t.step(t.dir_at(xs)->0, n),
        t.dir_at(xs) is None && t.at(xs) is Ok ==> t.at(xs.push(n)) == Ok::<Found, Load>(None),
        t.at(xs) is Err ==> t.at(xs.push(n)) == t.at(xs),
{
    lemma_walk_push(t, ROOT_INODE, xs, n);
}

/// What lies behind a path that leads nowhere leads nowhere.
proof fn lemma_nowhere_stays(t: TreeModel, front: Seq<Seq<char>>, path: Seq<Seq<char>>)
    requires
        t.is_sound(),
        t.at(front) == Ok::<Found, Load>(None),
        goes_through(path, front),
    ensures
        t.at(path) == Ok::<Found, Load>(None),
    decreases path.len(),
{
    if path.len() == front.len() {
        assert(path =~= front);
    } else {
        let xs = path.drop_last();
        assert(xs.take(front.len() as int) =~= path.take(front.len() as int));
        lemma_nowhere_stays(t, front, xs);
        assert(xs.push(path.last()) =~= path);
        lemma_at_push(t, xs, path.last());
    }
}

/// A moved entry and all below it are found under the new path and not under
/// the old one; all other paths lead where they led.
pub proof fn moved_entry_is_found(
    t: TreeModel,
    after: TreeModel,
    from: Seq<Seq<char>>,
    to: Seq<Seq<char>>,
    path: Seq<Seq<char>>,
)
    requires
        t.is_sound(),
        t.can_move(from, to),
        after.moved(t, from, to),
    ensures
        after.at(path) == (if goes_through(path, from) {
            Ok::<Found, Load>(None)
        } else if goes_through(path, to) {
            t.at(from + path.skip(to.len() as int))
        } else {
            t.at(path)
        }),
    decreases path.len(),
{
    let a = t.dir_at(from.drop_last())->0;
    let b = t.dir_at(to.drop_last())->0;
    let fname = from.last();
    let tname = to.last();
    let child = t.dirs[a as u128][fname];
    assert(from.drop_last().push(fname) =~= from);
    assert(to.drop_last().push(tname) =~= to);
    lemma_at_push(t, from.drop_last(), fname);
    lemma_at_push(t, to.drop_last(), tname);
    lemma_step(t, a, fname);
    lemma_step(t, b, tname);
    assert(t.inodes.contains_key(ROOT_INODE as u128));
    assert(after.inodes.contains_key(ROOT_INODE as u128) == t.inodes.contains_key(
        ROOT_INODE as u128,
    ));
    if path.len() == 0 {
        assert(after.at(path) == t.at(path));
    } else {
        let xs = path.drop_last();
        let n = path.last();
        assert(xs.push(n) =~= path);
        moved_entry_is_found(t, after, from, to, xs);
        lemma_walk_push(after, ROOT_INODE, xs, n);
        lemma_at_push(t, xs, n);
        assert(goes_through(xs, from) ==> goes_through(path, from)) by {
            if goes_through(xs, from) {
                assert(path.take(from.len() as int) =~= xs.take(from.len() as int));
            }
        }
        assert(goes_through(xs, to) ==> goes_through(path, to)) by {
            if goes_through(xs, to) {
                assert(path.take(to.len() as int) =~= xs.take(to.len() as int));
            }
        }
        if goes_through(path, from) {
            if path.len() == from.len() {
                assert(path =~= from);
                assert(xs =~= from.drop_last());
                assert(!goes_through(xs, from));
                if goes_through(xs, to) {
                    assert(from.take(to.len() as int) =~= xs.take(to.len() as int));
                    lemma_nowhere_stays(t, to, from);
                }
                assert(after.at(xs) == t.at(xs));
                lemma_step(after, a, fname);
                if a == b && fname == tname {
                    assert(from.drop_last() == to.drop_last());
                    assert(from =~= to);
                }
                assert(!after.dirs[a as u128].contains_key(fname));
            } else {
                assert(xs.take(from.len() as int) =~= path.take(from.len() as int));
                assert(goes_through(xs, from));
            }
        } else if goes_through(path, to) {
            if path.len() == to.len() {
                assert(path =~= to);
                assert(xs =~= to.drop_last());
                assert(!goes_through(xs, to));
                assert(after.at(xs) == t.at(xs));
                lemma_step(after, b, tname);
                assert(after.dirs[b as u128][tname] == child);
                assert(after.inodes.contains_key(child.ino as u128) == t.inodes.contains_key(
                    child.ino as u128,
                ));
                assert(from + path.skip(to.len() as int) =~= from);
            } else {
                assert(xs.take(to.len() as int) =~= path.take(to.len() as int));
                assert(goes_through(xs, to));
                let ys = from + xs.skip(to.len() as int);
                assert(ys.push(n) =~= from + path.skip(to.len() as int));
                assert(after.at(xs) == t.at(ys));
                lemma_at_push(t, ys, n);
                if t.dir_at(ys) is Some {
                    assert(ys.push(n).take(from.len() as int) =~= from);
                    assert(ys.push(n).len() > from.len());
                    lemma_other_step(t, after, from, to, ys, n);
                }
            }
        } else {
            assert(after.at(xs) == t.at(xs));
            if t.dir_at(xs) is Some {
                assert(path.take(path.len() as int) =~= path);
                lemma_other_step(t, after, from, to, xs, n);
            }
        }
    }
}

proof fn lemma_other_step(
    t: TreeModel,
    after: TreeModel,
    from: Seq<Seq<char>>,
    to: Seq<Seq<char>>,
    xs: Seq<Seq<char>>,
    n: Seq<char>,
)
    requires
        t.is_sound(),
        t.can_move(from, to),
        after.moved(t, from, to),
        t.dir_at(xs) is Some,
        xs.push(n) != from,
        xs.push(n) != to,
    ensures
        after.step(t.dir_at(xs)->0, n) == t.step(t.dir_at(xs)->0, n),
{
    let a = t.dir_at(from.drop_last())->0;
    let b = t.dir_at(to.drop_last())->0;
    let i = t.dir_at(xs)->0;
    assert(from.drop_last().push(from.last()) =~= from);
    assert(to.drop_last().push(to.last()) =~= to);
    lemma_at_push(t, from.drop_last(), from.last());
    lemma_at_push(t, to.drop_last(), to.last());
    lemma_step(t, a, from.last());
    lemma_step(t, b, to.last());
    lemma_step(t, i, n);
    lemma_step(after, i, n);
    if i == a && n == from.last() {
        assert(xs == from.drop_last());
    }
    if i == b && n == to.last() {
        assert(xs == to.drop_last());
    }
    if t.dirs.contains_key(i as u128) && t.dirs[i as u128].contains_key(n) {
        let child = t.dirs[i as u128][n].ino;
        assert(after.inodes.contains_key(child as u128) == t.inodes.contains_key(child as u128));
    }
}

/// A movement leaves to each directory one path only.
pub proof fn moved_tree_is_sound(
    t: TreeModel,
    after: TreeModel,
    from: Seq<Seq<char>>,
    to: Seq<Seq<char>>,
)
    requires
        t.is_sound(),
        t.can_move(from, to),
        after.moved(t, from, to),
    ensures
        after.is_sound(),
{
    assert(after.inodes.contains_key(ROOT_INODE as u128) == t.inodes.contains_key(
        ROOT_INODE as u128,
    ));
    assert forall|x: Seq<Seq<char>>, y: Seq<Seq<char>>|
        #![trigger after.dir_at(x), after.dir_at(y)]
        after.dir_at(x) is Some && after.dir_at(x) == after.dir_at(y) implies x == y by {
        moved_entry_is_found(t, after, from, to, x);
        moved_entry_is_found(t, after, from, to, y);
        let bx = if goes_through(x, to) {
            from + x.skip(to.len() as int)
        } else {
            x
        };
        let by_ = if goes_through(y, to) {
            from + y.skip(to.len() as int)
        } else {
            y
        };
        assert(after.at(x) == t.at(bx));
        assert(after.at(y) == t.at(by_));
        assert(t.dir_at(bx) == after.dir_at(x));
        assert(t.dir_at(by_) == after.dir_at(y));
        assert(bx == by_);
        if goes_through(x, to) && goes_through(y, to) {
            assert(x.skip(to.len() as int) =~= bx.skip(from.len() as int));
            assert(y.skip(to.len() as int) =~= by_.skip(from.len() as int));
            assert(x =~= x.take(to.len() as int) + x.skip(to.len() as int));
            assert(y =~= y.take(to.len() as int) + y.skip(to.len() as int));
        } else if goes_through(x, to) {
            assert(bx.take(from.len() as int) =~= from);
        } else if goes_through(y, to) {
            assert(by_.take(from.len() as int) =~= from);
        }
    }
}

/// Exchanging two entries by way of a spare one makes each path lead where the
/// other led, and leaves nothing at the spare one.
pub proof fn exchanged_entries_swap(
    t: TreeModel,
    t1: TreeModel,
    t2: TreeModel,
    t3: TreeModel,
    a: Seq<Seq<char>>,
    b: Seq<Seq<char>>,
    spare: Seq<Seq<char>>,
)
    requires
        t.is_sound(),
        a.len() > 0 && b.len() > 0 && spare.len() > 0,
        t.at(a) is Ok && t.at(a)->Ok_0 is Some,
        t.at(b) is Ok && t.at(b)->Ok_0 is Some,
        !goes_through(a, b) && !goes_through(b, a),
        t.dir_at(a.drop_last()) is Some,
        t.dir_at(b.drop_last()) is Some,
        spare.drop_last() == a.drop_last(),
        t.at(spare) == Ok::<Found, Load>(None),
        t1.moved(t, a, spare),
        t2.moved(t1, b, a),
        t3.moved(t2, spare, b),
    ensures
        t3.at(a) == t.at(b),
        t3.at(b) == t.at(a),
        t3.at(spare) == Ok::<Found, Load>(None),
        t3.is_sound(),
        t.can_move(a, spare) && t1.can_move(b, a) && t2.can_move(spare, b),
        t3.dir_at(a.drop_last()) is Some,
        t3.dir_at(b.drop_last()) is Some,
{
    let pa = a.drop_last();
    let pb = b.drop_last();
    assert(pa.push(a.last()) =~= a);
    assert(pb.push(b.last()) =~= b);
    assert(pa.push(spare.last()) =~= spare);
    // the spare path goes through neither, and neither through it
    assert(!goes_through(spare, a)) by {
        if goes_through(spare, a) {
            assert(spare.take(a.len() as int) =~= spare);
        }
    }
    assert(!goes_through(b, spare)) by {
        if goes_through(b, spare) {
            lemma_nowhere_stays(t, spare, b);
        }
    }
    assert(!goes_through(a, spare)) by {
        if goes_through(a, spare) {
            lemma_nowhere_stays(t, spare, a);
        }
    }
    assert(!goes_through(pa, spare));
    assert(!goes_through(pb, spare)) by {
        if goes_through(pb, spare) {
            assert(b.take(spare.len() as int) =~= pb.take(spare.len() as int));
        }
    }
    assert(!goes_through(pa, a));
    assert(!goes_through(pb, b));
    assert(!goes_through(pb, a)) by {
        if goes_through(pb, a) {
            assert(b.take(a.len() as int) =~= pb.take(a.len() as int));
        }
    }
    assert(!goes_through(pa, b)) by {
        if goes_through(pa, b) {
            assert(a.take(b.len() as int) =~= pa.take(b.len() as int));
        }
    }
    assert(!goes_through(spare, b)) by {
        if goes_through(spare, b) {
            if b.len() == spare.len() {
                assert(spare =~= b);
            } else {
                assert(pa.take(b.len() as int) =~= spare.take(b.len() as int));
            }
        }
    }
    assert(goes_through(a, a) && goes_through(b, b) && goes_through(spare, spare)) by {
        assert(a.take(a.len() as int) =~= a);
        assert(b.take(b.len() as int) =~= b);
        assert(spare.take(spare.len() as int) =~= spare);
    }
    assert(t.can_move(a, spare));
    moved_tree_is_sound(t, t1, a, spare);
    moved_entry_is_found(t, t1, a, spare, a);
    moved_entry_is_found(t, t1, a, spare, b);
    moved_entry_is_found(t, t1, a, spare, spare);
    moved_entry_is_found(t, t1, a, spare, pa);
    moved_entry_is_found(t, t1, a, spare, pb);
    assert(a + spare.skip(spare.len() as int) =~= a);
    assert(t1.can_move(b, a));
    moved_tree_is_sound(t1, t2, b, a);
    moved_entry_is_found(t1, t2, b, a, a);
    moved_entry_is_found(t1, t2, b, a, b);
    moved_entry_is_found(t1, t2, b, a, spare);
    moved_entry_is_found(t1, t2, b, a, pa);
    moved_entry_is_found(t1, t2, b, a, pb);
    assert(b + a.skip(a.len() as int) =~= b);
    assert(t2.can_move(spare, b));
    moved_tree_is_sound(t2, t3, spare, b);
    moved_entry_is_found(t2, t3, spare, b, a);
    moved_entry_is_found(t2, t3, spare, b, b);
    moved_entry_is_found(t2, t3, spare, b, spare);
    moved_entry_is_found(t2, t3, spare, b, pa);
    moved_entry_is_found(t2, t3, spare, b, pb);
    assert(spare + b.skip(b.len() as int) =~= spare);
}

/// Exchanging two entries twice leaves both where they were.
pub proof fn exchanging_twice_changes_nothing(
    t: TreeModel,
    t1: TreeModel,
    t2: TreeModel,
    t3: TreeModel,
    t4: TreeModel,
    t5: TreeModel,
    t6: TreeModel,
    a: Seq<Seq<char>>,
    b: Seq<Seq<char>>,
    spare: Seq<Seq<char>>,
)
    requires
        t.is_sound(),
        a.len() > 0 && b.len() > 0 && spare.len() > 0,
        t.at(a) is Ok && t.at(a)->Ok_0 is Some,
        t.at(b) is Ok && t.at(b)->Ok_0 is Some,
        !goes_through(a, b) && !goes_through(b, a),
        t.dir_at(a.drop_last()) is Some,
        t.dir_at(b.drop_last()) is Some,
        spare.drop_last() == a.drop_last(),
        t.at(spare) == Ok::<Found, Load>(None),
        t1.moved(t, a, spare),
        t2.moved(t1, b, a),
        t3.moved(t2, spare, b),
        t4.moved(t3, a, spare),
        t5.moved(t4, b, a),
        t6.moved(t5, spare, b),
    ensures
        t6.at(a) == t.at(a),
        t6.at(b) == t.at(b),
        t6.at(spare) == Ok::<Found, Load>(None),
{
    exchanged_entries_swap(t, t1, t2, t3, a, b, spare);
    exchanged_entries_swap(t3, t4, t5, t6, a, b, spare);
}

/// An entry that was taken away is not found, nor what was below it; all other
/// paths lead where they led.
pub proof fn unlinked_entry_is_gone(
    t: TreeModel,
    after: TreeModel,
    gone: Seq<Seq<char>>,
    path: Seq<Seq<char>>,
)
    requires
        t.is_sound(),
        gone.len() > 0,
        t.dir_at(gone.drop_last()) is Some,
        t.dirs.contains_key(t.dir_at(gone.drop_last())->0 as u128),
        after.same_kinds(t),
        after.dirs == t.dirs_without(t.dir_at(gone.drop_last())->0, gone.last()),
    ensures
        after.at(path) == (if goes_through(path, gone) {
            Ok::<Found, Load>(None)
        } else {
            t.at(path)
        }),
    decreases path.len(),
{
    let dir = t.dir_at(gone.drop_last())->0;
    assert(gone.drop_last().push(gone.last()) =~= gone);
    assert(after.inodes.contains_key(ROOT_INODE as u128) == t.inodes.contains_key(
        ROOT_INODE as u128,
    ));
    if path.len() > 0 {
        let xs = path.drop_last();
        let n = path.last();
        assert(xs.push(n) =~= path);
        unlinked_entry_is_gone(t, after, gone, xs);
        lemma_walk_push(after, ROOT_INODE, xs, n);
        lemma_at_push(t, xs, n);
        if goes_through(xs, gone) {
            assert(path.take(gone.len() as int) =~= xs.take(gone.len() as int));
        } else {
            if t.dir_at(xs) is Some {
                let i = t.dir_at(xs)->0;
                lemma_step(t, i, n);
                lemma_step(after, i, n);
                if i == dir && n == gone.last() {
                    assert(xs == gone.drop_last());
                    assert(path =~= gone);
                    assert(path.take(gone.len() as int) =~= gone);
                } else if t.dirs.contains_key(i as u128) && t.dirs[i as u128].contains_key(n) {
                    let child = t.dirs[i as u128][n].ino;
                    assert(after.inodes.contains_key(child as u128) == t.inodes.contains_key(
                        child as u128,
                    ));
                }
            }
            if goes_through(path, gone) {
                if path.len() > gone.len() {
                    assert(xs.take(gone.len() as int) =~= path.take(gone.len() as int));
                } else {
                    assert(path =~= gone);
                    assert(xs =~= gone.drop_last());
                    assert(n == gone.last());
                }
            }
        }
    }
}

impl Ext4Names {
    /// Paths are remembered in their normal form.
    pub open spec fn remembers_normal_paths(&self) -> bool {
        &&& forall|k: Seq<char>| #[trigger]
            self.paths.found@.contains_key(k) ==> is_absolute(k) && normalized(k) == k
        &&& forall|k: Seq<char>| #[trigger]
            self.paths.missing@.contains_key(k) ==> is_absolute(k) && normalized(k) == k
    }
}

pub(crate) proof fn lemma_parent_names(path: Seq<char>)
    requires
        is_absolute(path),
        normalized(path) == path,
        parts_of(path).len() > 0,
    ensures
        is_absolute(normalized(parent_of(path))),
        parts_of(normalized(parent_of(path))) == parts_of(path).drop_last(),
        all_names(parts_of(path)),
{
    let names = parts_of(path);
    let front = names.drop_last();
    lemma_parts_are_names(path);
    assert(all_names(front));
    lemma_parts_of_render(true, front);
    if names.len() == 1 {
        assert(front =~= Seq::<Seq<char>>::empty());
        assert(join(front) =~= Seq::<char>::empty());
        assert(render(true, front) =~= seq!['/']);
    }
    assert(parent_of(path) == render(true, front));
}

proof fn lemma_in_tree_goes_through(top: Seq<char>, k: Seq<char>)
    requires
        is_absolute(top),
        normalized(top) == top,
        parts_of(top).len() > 0,
        is_absolute(k),
        normalized(k) == k,
    ensures
        in_tree(top, k) <==> goes_through(parts_of(k), parts_of(top)),
        top != seq!['/'],
{
    let a = parts_of(top);
    let b = parts_of(k);
    lemma_parts_are_names(top);
    lemma_parts_are_names(k);
    descendant_continues_names(a, b);
    assert(render(true, a) == top);
    assert(render(true, b) == k);
    assert(top != seq!['/']) by {
        let none = Seq::<Seq<char>>::empty();
        lemma_parts_of_render(true, none);
        assert(join(none) =~= Seq::<char>::empty());
        assert(render(true, none) =~= seq!['/']);
    }
    if k == top {
        assert(b.take(a.len() as int) =~= a);
    }
    if goes_through(b, a) && b.len() == a.len() {
        assert(b =~= a);
    }
}

/// A path that was renamed: once the entry has moved on disk and was noted, the
/// new path leads where the old one led, and the old one leads nowhere.
pub proof fn renamed_path_leads_there(
    names: &Ext4Names,
    after: &Ext4Names,
    disk: TreeModel,
    changed: TreeModel,
    from: Seq<char>,
    to: Seq<char>,
    no_replace: bool,
    m: MovementModel,
)
    requires
        disk.is_sound(),
        names.tree().part_of(disk),
        names.paths_true(disk),
        names.remembers_normal_paths(),
        is_absolute(normalized(from)),
        is_absolute(normalized(to)),
        names.rename_spec(from, to, no_replace) == Ok::<RenameModel, Fault>(RenameModel::Move(m)),
        changed.same_kinds(disk),
        ({
            let less = disk.dirs_without(m.from.parent_ino, m.from.name);
            changed.dirs == less.insert(
                m.to.parent_ino as u128,
                less[m.to.parent_ino as u128].insert(
                    m.to.name,
                    disk.dirs[m.from.parent_ino as u128][m.from.name],
                ),
            )
        }),
        after.tree().part_of(changed),
        after.paths.found@ == names.paths.found@.remove_keys(
            Set::new(|k: Seq<char>| in_tree(normalized(m.from.path), k)),
        ).remove_keys(Set::new(|k: Seq<char>| in_tree(normalized(m.to.path), k))),
        after.paths.missing@ == names.paths.missing@.remove_keys(
            Set::new(|k: Seq<char>| in_tree(normalized(m.from.path), k)),
        ).remove_keys(Set::new(|k: Seq<char>| in_tree(normalized(m.to.path), k))),
    ensures
        after.paths_true(changed),
        changed.is_sound(),
        after.lookup_spec(to) is Ok ==> after.lookup_spec(to) == names.lookup_spec(from),
        after.lookup_spec(from) is Ok ==> after.lookup_spec(from) == Ok::<Found, Load>(None),
{
    let a = normalized(from);
    let b = normalized(to);
    normalize_is_idempotent(from);
    normalize_is_idempotent(to);
    let x = parts_of(a);
    let y = parts_of(b);
    lemma_parent_names(a);
    lemma_parent_names(b);
    lookup_tells_the_disk(names, disk, parent_of(a));
    lookup_tells_the_disk(names, disk, parent_of(b));
    lookup_tells_the_disk(names, disk, a);
    lookup_tells_the_disk(names, disk, b);
    assert(disk.dir_at(x.drop_last()) == Some(m.from.parent_ino));
    assert(disk.dir_at(y.drop_last()) == Some(m.to.parent_ino));
    assert(disk.at(x) == names.lookup_spec(from));
    assert(disk.at(y) == Ok::<Found, Load>(None));
    assert(!goes_through(y, x)) by {
        if goes_through(y, x) {
            if y.len() == x.len() {
                assert(y =~= x);
            } else {
                lemma_in_tree_goes_through(a, b);
                let p = y.drop_last();
                assert(p.take(x.len() as int) =~= y.take(x.len() as int));
                if p.len() == x.len() {
                    assert(p =~= x);
                } else {
                    lemma_leads_through_dirs(disk, x, p);
                }
            }
        }
    }
    assert(disk.can_move(x, y));
    assert(changed.moved(disk, x, y));
    moved_tree_is_sound(disk, changed, x, y);
    assert forall|k: Seq<char>| #[trigger] after.paths.found@.contains_key(k) implies changed.at(
        parts_of(k),
    ) == Ok::<Found, Load>(Some(after.paths.found@[k])) by {
        assert(names.paths.found@.contains_key(k));
        lemma_in_tree_goes_through(a, k);
        lemma_in_tree_goes_through(b, k);
        moved_entry_is_found(disk, changed, x, y, parts_of(k));
    }
    assert forall|k: Seq<char>| #[trigger] after.paths.missing@.contains_key(k) implies changed.at(
        parts_of(k),
    ) == Ok::<Found, Load>(None) by {
        assert(names.paths.missing@.contains_key(k));
        lemma_in_tree_goes_through(a, k);
        lemma_in_tree_goes_through(b, k);
        moved_entry_is_found(disk, changed, x, y, parts_of(k));
    }
    assert(after.paths_true(changed));
    moved_entry_is_found(disk, changed, x, y, x);
    moved_entry_is_found(disk, changed, x, y, y);
    assert(x.take(x.len() as int) =~= x);
    assert(y.take(y.len() as int) =~= y);
    assert(x + y.skip(y.len() as int) =~= x);
    lookup_tells_the_disk(after, changed, from);
    lookup_tells_the_disk(after, changed, to);
}

proof fn lemma_leads_through_dirs(t: TreeModel, front: Seq<Seq<char>>, path: Seq<Seq<char>>)
    requires
        t.is_sound(),
        goes_through(path, front),
        front.len() < path.len(),
        t.at(path) is Ok && t.at(path)->Ok_0 is Some,
    ensures
        t.dir_at(front) is Some,
    decreases path.len(),
{
    let xs = path.drop_last();
    assert(xs.push(path.last()) =~= path);
    lemma_at_push(t, xs, path.last());
    if xs.len() == front.len() {
        assert(xs =~= front);
    } else {
        assert(xs.take(front.len() as int) =~= path.take(front.len() as int));
        lemma_leads_through_dirs(t, front, xs);
    }
}

proof fn lemma_decimal_has_no_slash(n: nat)
    ensures
        decimal(n).len() > 0,
        !decimal(n).contains('/'),
    decreases n,
{
    if n >= 10 {
        lemma_decimal_has_no_slash(n / 10);
        let front = decimal(n / 10);
        let last = digit((n % 10) as int);
        assert forall|i: int| 0 <= i < decimal(n).len() implies decimal(n)[i] != '/' by {
            if i < front.len() {
                assert(decimal(n)[i] == front[i]);
                assert(front.contains(front[i]));
            } else {
                assert(decimal(n)[i] == last);
            }
        }
    }
}

/// The name part of a temporary path.
spec fn temp_part(a: u32, b: u32, attempt: nat) -> Seq<char> {
    ".wll_rename_exchange_"@ + decimal(a as nat) + "_"@ + decimal(b as nat) + "_"@ + decimal(attempt)
}

proof fn lemma_temp_path(path: Seq<char>, a: u32, b: u32, attempt: nat)
    requires
        is_absolute(path),
        normalized(path) == path,
        parts_of(path).len() > 0,
    ensures
        ({
            let temp = exchange_name(parent_of(path), a, b, attempt);
            &&& is_absolute(temp) && normalized(temp) == temp
            &&& parts_of(temp).len() > 0
            &&& parts_of(temp).drop_last() == parts_of(path).drop_last()
        }),
{
    let front = parts_of(path).drop_last();
    let part = temp_part(a, b, attempt);
    let temp = exchange_name(parent_of(path), a, b, attempt);
    let (x, y, z) = (decimal(a as nat), decimal(b as nat), decimal(attempt));
    reveal_strlit(".wll_rename_exchange_");
    reveal_strlit("/.wll_rename_exchange_");
    reveal_strlit("_");
    let w = ".wll_rename_exchange_"@;
    lemma_decimal_has_no_slash(a as nat);
    lemma_decimal_has_no_slash(b as nat);
    lemma_decimal_has_no_slash(attempt);
    assert("/.wll_rename_exchange_"@ =~= seq!['/'] + w);
    assert forall|i: int| 0 <= i < part.len() implies part[i] != '/' by {
        let u = "_"@;
        if i < w.len() {
            assert(part[i] == w[i]);
        } else if i < w.len() + x.len() {
            assert(part[i] == x[i - w.len()]);
            assert(x.contains(part[i]));
        } else if i < w.len() + x.len() + 1 {
            assert(part[i] == u[0]);
        } else if i < w.len() + x.len() + 1 + y.len() {
            assert(part[i] == y[i - w.len() - x.len() - 1]);
            assert(y.contains(part[i]));
        } else if i < w.len() + x.len() + 1 + y.len() + 1 {
            assert(part[i] == u[0]);
        } else {
            assert(part[i] == z[i - w.len() - x.len() - 1 - y.len() - 1]);
            assert(z.contains(part[i]));
        }
    }
    assert(part.len() > 2);
    let names = front.push(part);
    lemma_parts_are_names(path);
    assert(all_names(front));
    assert(all_names(names));
    assert(names.drop_last() =~= front);
    assert(names.last() == part);
    lemma_parts_of_render(true, names);
    let none = Seq::<Seq<char>>::empty();
    assert(join(none) =~= Seq::<char>::empty());
    assert(render(true, none) =~= seq!['/']);
    lemma_parts_of_render(true, none);
    lemma_parts_of_render(true, front);
    if front.len() == 0 {
        assert(front =~= none);
        assert(names =~= seq![part]);
        assert(parent_of(path) == seq!['/']);
        assert(temp =~= render(true, names));
    } else {
        assert(parent_of(path) == render(true, front));
        assert(join(names) == join(front).push('/') + part);
        assert(temp =~= render(true, names));
    }
}

proof fn lemma_free_temp(v: &Ext4Names, dir: Seq<char>, a: u32, b: u32, attempt: nat)
    requires
        v.free_temp(dir, a, b, attempt) is Ok,
    ensures
        exists|k: nat|
            v.free_temp(dir, a, b, attempt)->Ok_0 == #[trigger] exchange_name(dir, a, b, k),
        v.lookup_spec(v.free_temp(dir, a, b, attempt)->Ok_0) == Ok::<Found, Load>(None),
    decreases EXCHANGE_ATTEMPTS - attempt,
{
    if v.lookup_spec(exchange_name(dir, a, b, attempt)) != Ok::<Found, Load>(None) {
        lemma_free_temp(v, dir, a, b, attempt + 1);
    }
}

/// Two paths that were exchanged lead where the other led: the steps are moving
/// the first away, the second to it, and the first to the second.
pub proof fn exchanged_paths_lead_to_each_other(
    names: &Ext4Names,
    after: &Ext4Names,
    disk: TreeModel,
    t1: TreeModel,
    t2: TreeModel,
    t3: TreeModel,
    p: Seq<char>,
    q: Seq<char>,
    temp: Seq<char>,
)
    requires
        disk.is_sound(),
        names.tree().part_of(disk),
        names.paths_true(disk),
        is_absolute(normalized(p)),
        is_absolute(normalized(q)),
        names.exchange_spec(p, q) == Ok::<Option<Seq<char>>, Fault>(Some(temp)),
        t1.moved(disk, parts_of(normalized(p)), parts_of(normalized(temp))),
        t2.moved(t1, parts_of(normalized(q)), parts_of(normalized(p))),
        t3.moved(t2, parts_of(normalized(temp)), parts_of(normalized(q))),
        after.tree().part_of(t3),
        after.paths_true(t3),
    ensures
        t3.is_sound(),
        after.lookup_spec(p) is Ok ==> after.lookup_spec(p) == names.lookup_spec(q),
        after.lookup_spec(q) is Ok ==> after.lookup_spec(q) == names.lookup_spec(p),
        after.lookup_spec(temp) is Ok ==> after.lookup_spec(temp) == Ok::<Found, Load>(None),
{
    let a = normalized(p);
    let b = normalized(q);
    normalize_is_idempotent(p);
    normalize_is_idempotent(q);
    let x = parts_of(a);
    let y = parts_of(b);
    let (ia, ka) = names.find_spec(a)->Ok_0;
    let (ib, kb) = names.find_spec(b)->Ok_0;
    lemma_free_temp(names, parent_of(a), ia, ib, 0);
    let k = choose|k: nat| temp == #[trigger] exchange_name(parent_of(a), ia, ib, k);
    lemma_temp_path(a, ia, ib, k);
    let z = parts_of(temp);
    lookup_tells_the_disk(names, disk, a);
    lookup_tells_the_disk(names, disk, b);
    lookup_tells_the_disk(names, disk, temp);
    assert(y.len() > 0) by {
        if y.len() == 0 {
            assert(y =~= Seq::<Seq<char>>::empty());
            assert(join(y) =~= Seq::<char>::empty());
            assert(render(true, y) =~= seq!['/']);
        }
    }
    lemma_in_tree_goes_through(a, b);
    lemma_in_tree_goes_through(b, a);
    assert(x != y) by {
        if x == y {
            assert(render(true, x) == render(true, y));
        }
    }
    assert(!goes_through(y, x)) by {
        if goes_through(y, x) && x.len() < y.len() {
            lemma_leads_through_dirs(disk, x, y);
        } else if goes_through(y, x) {
            assert(x =~= y);
        }
    }
    assert(!goes_through(x, y)) by {
        if goes_through(x, y) && y.len() < x.len() {
            lemma_leads_through_dirs(disk, y, x);
        } else if goes_through(x, y) {
            assert(x =~= y);
        }
    }
    assert(x.take(x.drop_last().len() as int) =~= x.drop_last());
    assert(y.take(y.drop_last().len() as int) =~= y.drop_last());
    lemma_leads_through_dirs(disk, x.drop_last(), x);
    lemma_leads_through_dirs(disk, y.drop_last(), y);
    exchanged_entries_swap(disk, t1, t2, t3, x, y, z);
    lookup_tells_the_disk(after, t3, p);
    lookup_tells_the_disk(after, t3, q);
    lookup_tells_the_disk(after, t3, temp);
}

/// An entry that was made is found, and all paths that do not go through it lead
/// where they led.
pub proof fn created_entry_is_found(
    t: TreeModel,
    after: TreeModel,
    new: Seq<Seq<char>>,
    child: DirChild,
    path: Seq<Seq<char>>,
)
    requires
        t.is_sound(),
        new.len() > 0,
        t.dir_at(new.drop_last()) is Some,
        t.at(new) == Ok::<Found, Load>(None),
        after.inodes.contains_key(child.ino as u128),
        forall|k: u128|
            k != child.ino as u128 ==> #[trigger] after.inodes.contains_key(k)
                == t.inodes.contains_key(k) && (t.inodes.contains_key(k) ==> kind_of_mode(
                after.inodes[k].mode,
            ) == kind_of_mode(t.inodes[k].mode)),
        !t.inodes.contains_key(child.ino as u128),
        after.dirs == t.dirs.insert(
            t.dir_at(new.drop_last())->0 as u128,
            t.dirs[t.dir_at(new.drop_last())->0 as u128].insert(new.last(), child),
        ),
    ensures
        after.at(new) == Ok::<Found, Load>(
            Some((child.ino, kind_of_mode(after.inodes[child.ino as u128].mode))),
        ),
        !goes_through(path, new) && t.at(path) is Ok ==> after.at(path) == t.at(path),
    decreases path.len() + new.len(),
{
    let dir = t.dir_at(new.drop_last())->0;
    let front = new.drop_last();
    assert(front.push(new.last()) =~= new);
    assert(after.inodes.contains_key(ROOT_INODE as u128));
    lemma_at_push(t, front, new.last());
    lemma_step(t, dir, new.last());
    lemma_created_elsewhere(t, after, new, child, path);
    lemma_created_elsewhere(t, after, new, child, front);
    lemma_walk_push(after, ROOT_INODE, front, new.last());
    lemma_step(after, dir, new.last());
    assert(!goes_through(front, new));
}

proof fn lemma_created_elsewhere(
    t: TreeModel,
    after: TreeModel,
    new: Seq<Seq<char>>,
    child: DirChild,
    path: Seq<Seq<char>>,
)
    requires
        t.is_sound(),
        new.len() > 0,
        t.dir_at(new.drop_last()) is Some,
        t.dirs.contains_key(t.dir_at(new.drop_last())->0 as u128),
        forall|k: u128|
            k != child.ino as u128 ==> #[trigger] after.inodes.contains_key(k)
                == t.inodes.contains_key(k) && (t.inodes.contains_key(k) ==> kind_of_mode(
                after.inodes[k].mode,
            ) == kind_of_mode(t.inodes[k].mode)),
        !t.inodes.contains_key(child.ino as u128),
        after.dirs == t.dirs.insert(
            t.dir_at(new.drop_last())->0 as u128,
            t.dirs[t.dir_at(new.drop_last())->0 as u128].insert(new.last(), child),
        ),
    ensures
        !goes_through(path, new) && t.at(path) is Ok ==> after.at(path) == t.at(path),
    decreases path.len(),
{
    assert(ROOT_INODE != child.ino);
    assert(after.inodes.contains_key(ROOT_INODE as u128));
    if path.len() > 0 && !goes_through(path, new) && t.at(path) is Ok {
        let dir = t.dir_at(new.drop_last())->0;
        let xs = path.drop_last();
        let n = path.last();
        assert(xs.push(n) =~= path);
        if goes_through(xs, new) {
            assert(path.take(new.len() as int) =~= xs.take(new.len() as int));
        }
        lemma_created_elsewhere(t, after, new, child, xs);
        lemma_at_push(t, xs, n);
        lemma_walk_push(after, ROOT_INODE, xs, n);
        if t.dir_at(xs) is Some {
            let i = t.dir_at(xs)->0;
            lemma_step(t, i, n);
            lemma_step(after, i, n);
            if i == dir && n == new.last() {
                assert(xs == new.drop_last());
                assert(path =~= new);
                assert(path.take(new.len() as int) =~= path);
            } else if t.dirs.contains_key(i as u128) && t.dirs[i as u128].contains_key(n) {
                let c = t.dirs[i as u128][n].ino;
                assert(t.inodes.contains_key(c as u128));
                assert(after.inodes.contains_key(c as u128));
            }
        }
    }
}

} // verus!
