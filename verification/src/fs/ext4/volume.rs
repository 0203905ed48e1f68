//! The names of an ext4 volume: what has been read of its directories and
//! inodes, and how paths are resolved in it. What has not been read yet is
//! asked for.
use vstd::prelude::*;

use crate::errno::SysErrNo;
use crate::fs::ext4::caches::{PathCache, NEGATIVE_PATH_CACHE_LIMIT};
use crate::fs::ext4::types::{kind_of_mode, node_kind, DiskInode, Ext4NodeKind};
use crate::fs::path::{
    is_absolute, normalize_path, normalized, parts_of, path_parts, resolved, starts_with_slash,
};
use crate::intmap::IntMap;
use crate::text::{str_eq, texts};
use crate::textmap::{in_tree, TextMap};

verus! {

/// The inode of the root directory.
pub const ROOT_INODE: u32 = 2;

/// An entry of a directory.
#[derive(Clone, Copy, PartialEq, Eq, Structural, Debug)]
pub struct DirChild {
    pub ino: u32,
    pub is_dir: bool,
}

/// An entry of a directory as it lies on disk, and whether its inode is that of
/// a directory, where the entry does not tell.
pub struct RawEntry {
    pub name: String,
    pub ino: u32,
    pub type_byte: u8,
    pub used: bool,
    pub inode_is_dir: bool,
}

/// The type of an entry that does not tell.
pub const DIRENT_UNKNOWN: u8 = 0;

/// The type of an entry for a directory.
pub const DIRENT_DIR: u8 = 2;

/// Whether an entry stands for something in its directory: it is in use and not
/// for the directory itself or its parent.
pub open spec fn counts(e: RawEntry) -> bool {
    e.used && e.name@ != "."@ && e.name@ != ".."@
}

/// What an entry stands for.
pub open spec fn child_of_raw(e: RawEntry) -> DirChild {
    DirChild {
        ino: e.ino,
        is_dir: e.type_byte == DIRENT_DIR || (e.type_byte == DIRENT_UNKNOWN && e.inode_is_dir),
    }
}

/// A table holds no entry for the directory itself or its parent.
pub open spec fn is_proper(table: Map<Seq<char>, DirChild>) -> bool {
    !table.contains_key("."@) && !table.contains_key(".."@)
}

/// The table of a directory; of equal names the last counts.
pub open spec fn table_of(raw: Seq<RawEntry>) -> Map<Seq<char>, DirChild>
    decreases raw.len(),
{
    if raw.len() == 0 {
        Map::empty()
    } else if counts(raw.last()) {
        table_of(raw.drop_last()).insert(raw.last().name@, child_of_raw(raw.last()))
    } else {
        table_of(raw.drop_last())
    }
}

/// The table of a directory from its entries.
pub fn dir_table(raw: &Vec<RawEntry>) -> (r: TextMap<DirChild>)
    ensures
        r.wf(),
        r@ == table_of(raw@),
        is_proper(r@),
        forall|i: int|
            0 <= i < raw@.len() && counts(#[trigger] raw@[i]) ==> r@.contains_key(raw@[i].name@),
{
    let mut r: TextMap<DirChild> = TextMap::new();
    let mut i: usize = 0;
    assert(raw@.take(0) =~= Seq::empty());
    while i < raw.len()
        invariant
            0 <= i <= raw@.len(),
            r.wf(),
            r@ == table_of(raw@.take(i as int)),
        decreases raw@.len() - i,
    {
        assert(raw@.take(i + 1).drop_last() =~= raw@.take(i as int));
        let e = &raw[i];
        if e.used && !str_eq(e.name.as_str(), ".") && !str_eq(e.name.as_str(), "..") {
            let is_dir = e.type_byte == DIRENT_DIR || (e.type_byte == DIRENT_UNKNOWN
                && e.inode_is_dir);
            let name: String = e.name.clone();
            r.insert(name, DirChild { ino: e.ino, is_dir });
        }
        i = i + 1;
    }
    assert(raw@.take(i as int) =~= raw@);
    proof {
        table_holds_what_counts(raw@);
    }
    r
}

/// The table of a directory holds its entries that count, and no others.
pub proof fn table_holds_what_counts(raw: Seq<RawEntry>)
    ensures
        forall|name: Seq<char>| #[trigger]
            table_of(raw).contains_key(name) <==> exists|i: int|
                0 <= i < raw.len() && counts(#[trigger] raw[i]) && raw[i].name@ == name,
        forall|i: int|
            0 <= i < raw.len() && counts(#[trigger] raw[i]) ==> table_of(raw).contains_key(
                raw[i].name@,
            ),
        is_proper(table_of(raw)),
    decreases raw.len(),
{
    if raw.len() > 0 {
        let front = raw.drop_last();
        table_holds_what_counts(front);
        assert forall|name: Seq<char>| #[trigger] table_of(raw).contains_key(name) <==> exists|
            i: int,
        |
            0 <= i < raw.len() && counts(#[trigger] raw[i]) && raw[i].name@ == name by {
            if table_of(front).contains_key(name) {
                let i = choose|i: int|
                    0 <= i < front.len() && counts(#[trigger] front[i]) && front[i].name@ == name;
                assert(raw[i] == front[i]);
            }
            if exists|i: int| 0 <= i < raw.len() && counts(#[trigger] raw[i]) && raw[i].name@ == name {
                let i = choose|i: int|
                    0 <= i < raw.len() && counts(#[trigger] raw[i]) && raw[i].name@ == name;
                if i < front.len() {
                    assert(front[i] == raw[i]);
                }
            }
            if counts(raw.last()) {
                assert(raw[raw.len() - 1] == raw.last());
            }
        }
    }
}

/// Something that has to be read from disk before an operation can go on.
#[derive(Clone, Copy, PartialEq, Eq, Structural, Debug)]
pub enum Load {
    Inode(u32),
    Dir(u32),
    Link(u32),
}

/// Why an operation did not succeed: an error, or something to read first.
#[derive(Clone, Copy, PartialEq, Eq, Structural, Debug)]
pub enum Fault {
    Sys(SysErrNo),
    Need(Load),
}

/// What a path leads to.
pub type Found = Option<(u32, Ext4NodeKind)>;

/// What is known of the directories and inodes of a volume.
pub struct Ext4Names {
    pub mounted: bool,
    pub paths: PathCache,
    pub dirs: IntMap<TextMap<DirChild>>,
    pub inodes: IntMap<DiskInode>,
    pub links: IntMap<Vec<u8>>,
}

/// Directories and inodes as mathematical values.
pub struct TreeModel {
    pub dirs: Map<u128, Map<Seq<char>, DirChild>>,
    pub inodes: Map<u128, DiskInode>,
    pub links: Map<u128, Seq<u8>>,
}

impl TreeModel {
    /// Where names lead from an inode.
    pub open spec fn walk(self, from: u32, names: Seq<Seq<char>>) -> Result<Found, Load>
        decreases names.len(),
    {
        if names.len() == 0 {
            if self.inodes.contains_key(from as u128) {
                Ok(Some((from, kind_of_mode(self.inodes[from as u128].mode))))
            } else {
                Err(Load::Inode(from))
            }
        } else if !self.dirs.contains_key(from as u128) {
            Err(Load::Dir(from))
        } else if !self.dirs[from as u128].contains_key(names[0]) {
            Ok(None)
        } else {
            let ino = self.dirs[from as u128][names[0]].ino;
            if names.len() > 1 && !self.inodes.contains_key(ino as u128) {
                Err(Load::Inode(ino))
            } else if names.len() > 1 && kind_of_mode(self.inodes[ino as u128].mode)
                != Ext4NodeKind::Directory {
                Ok(None)
            } else {
                self.walk(ino, names.drop_first())
            }
        }
    }

    /// Whether all that is known here is so there.
    pub open spec fn part_of(self, whole: TreeModel) -> bool {
        &&& forall|k: u128| #[trigger]
            self.dirs.contains_key(k) ==> whole.dirs.contains_key(k) && whole.dirs[k]
                == self.dirs[k]
        &&& forall|k: u128| #[trigger]
            self.inodes.contains_key(k) ==> whole.inodes.contains_key(k) && whole.inodes[k]
                == self.inodes[k]
    }
}

/// Where a part of a tree leads, the whole tree leads too.
pub proof fn known_part_leads_alike(
    part: TreeModel,
    whole: TreeModel,
    from: u32,
    names: Seq<Seq<char>>,
)
    requires
        part.part_of(whole),
    ensures
        part.walk(from, names) is Ok ==> whole.walk(from, names) == part.walk(from, names),
    decreases names.len(),
{
    if names.len() > 0 && part.dirs.contains_key(from as u128) && part.dirs[from as u128].contains_key(
        names[0],
    ) {
        let ino = part.dirs[from as u128][names[0]].ino;
        known_part_leads_alike(part, whole, ino, names.drop_first());
    }
}

impl Ext4Names {
    /// The directories and inodes that are known.
    pub open spec fn tree(&self) -> TreeModel {
        TreeModel {
            dirs: self.dirs@.map_values(|d: TextMap<DirChild>| d@),
            inodes: self.inodes@,
            links: self.links@.map_values(|v: Vec<u8>| v@),
        }
    }

    /// The tables are in order.
    pub open spec fn wf(&self) -> bool {
        &&& self.paths.wf()
        &&& self.dirs.wf()
        &&& self.inodes.wf()
        &&& self.links.wf()
        &&& forall|k: u128| #[trigger]
            self.dirs@.contains_key(k) ==> self.dirs@[k].wf() && is_proper(self.dirs@[k]@)
    }

    /// Where a path leads: as remembered, or else by walking there.
    pub open spec fn lookup_spec(&self, path: Seq<char>) -> Result<Found, Load> {
        let n = normalized(path);
        if !is_absolute(n) {
            Ok(None)
        } else if self.paths.found@.contains_key(n) {
            Ok(Some(self.paths.found@[n]))
        } else if self.paths.missing@.contains_key(n) {
            Ok(None)
        } else {
            self.tree().walk(ROOT_INODE, parts_of(n))
        }
    }

    /// What is remembered of paths is what a tree says.
    pub open spec fn paths_true(&self, whole: TreeModel) -> bool {
        &&& forall|k: Seq<char>| #[trigger]
            self.paths.found@.contains_key(k) ==> whole.walk(ROOT_INODE, parts_of(k)) == Ok::<
                Found,
                Load,
            >(Some(self.paths.found@[k]))
        &&& forall|k: Seq<char>| #[trigger]
            self.paths.missing@.contains_key(k) ==> whole.walk(ROOT_INODE, parts_of(k)) == Ok::<
                Found,
                Load,
            >(None)
    }

    /// Nothing is known.
    pub fn new() -> (r: Self)
        ensures
            r.wf(),
            !r.mounted,
            r.dirs@ == Map::<u128, TextMap<DirChild>>::empty(),
            r.inodes@ == Map::<u128, DiskInode>::empty(),
            r.links@ == Map::<u128, Vec<u8>>::empty(),
            r.paths.found@ == Map::<Seq<char>, (u32, Ext4NodeKind)>::empty(),
            r.paths.missing@ == Map::<Seq<char>, ()>::empty(),
    {
        Ext4Names {
            mounted: false,
            paths: PathCache::new(),
            dirs: IntMap::new(),
            inodes: IntMap::new(),
            links: IntMap::new(),
        }
    }

    /// An inode, if it is known.
    pub fn inode(&self, ino: u32) -> (r: Result<DiskInode, Fault>)
        requires
            self.wf(),
        ensures
            r == (if self.inodes@.contains_key(ino as u128) {
                Ok::<DiskInode, Fault>(self.inodes@[ino as u128])
            } else {
                Err(Fault::Need(Load::Inode(ino)))
            }),
    {
        match self.inodes.get(ino as u128) {
            Some(inode) => Ok(*inode),
            None => Err(Fault::Need(Load::Inode(ino))),
        }
    }

    fn walk_path(&self, names: &Vec<String>) -> (r: Result<Found, Load>)
        requires
            self.wf(),
        ensures
            r == self.tree().walk(ROOT_INODE, texts(names@)),
    {
        let ghost all = texts(names@);
        let mut from: u32 = ROOT_INODE;
        let mut i: usize = 0;
        assert(all.skip(0) =~= all);
        while i < names.len()
            invariant
                self.wf(),
                all == texts(names@),
                0 <= i <= names@.len(),
                self.tree().walk(ROOT_INODE, all) == self.tree().walk(from, all.skip(i as int)),
            decreases names@.len() - i,
        {
            proof {
                assert(all.skip(i as int)[0] == names@[i as int]@);
                assert(all.skip(i as int).drop_first() =~= all.skip(i + 1));
            }
            let entries = match self.dirs.get(from as u128) {
                Some(entries) => entries,
                None => {
                    return Err(Load::Dir(from));
                },
            };
            assert(self.dirs@[from as u128].wf());
            let ino: u32 = match entries.get(names[i].as_str()) {
                Some(child) => child.ino,
                None => {
                    return Ok(None);
                },
            };
            if i + 1 < names.len() {
                match self.inodes.get(ino as u128) {
                    Some(inode) => {
                        if node_kind(inode.mode) != Ext4NodeKind::Directory {
                            return Ok(None);
                        }
                    },
                    None => {
                        return Err(Load::Inode(ino));
                    },
                }
            }
            from = ino;
            i = i + 1;
        }
        assert(all.skip(i as int) =~= Seq::empty());
        match self.inodes.get(from as u128) {
            Some(inode) => Ok(Some((from, node_kind(inode.mode)))),
            None => Err(Load::Inode(from)),
        }
    }

    /// Where a path leads, without remembering it.
    pub fn lookup(&self, path: &str) -> (r: Result<Found, Load>)
        requires
            self.wf(),
        ensures
            r == self.lookup_spec(path@),
    {
        let n = normalize_path(path);
        if !starts_with_slash(n.as_str()) {
            return Ok(None);
        }
        match self.paths.found.get(n.as_str()) {
            Some(found) => {
                return Ok(Some(*found));
            },
            None => {},
        }
        if self.paths.missing.contains_key(n.as_str()) {
            return Ok(None);
        }
        let names = path_parts(n.as_str());
        self.walk_path(&names)
    }

    /// The same names, with where a path leads, or that it leads nowhere,
    /// remembered. If there are too many paths that lead nowhere, the others are
    /// forgotten.
    pub open spec fn path_remembered(&self, was: &Ext4Names, path: Seq<char>) -> bool {
        let n = normalized(path);
        let r = was.lookup_spec(path);
        &&& *self == (Ext4Names { paths: self.paths, ..*was })
        &&& match r {
            Ok(Some(found)) => self.paths.found@ == was.paths.found@.insert(n, found)
                && self.paths.missing@ == was.paths.missing@,
            Ok(None) => {
                &&& self.paths.found@ == was.paths.found@
                &&& self.paths.missing@ == (if !is_absolute(n) || was.paths.missing@.contains_key(n) {
                    was.paths.missing@
                } else if was.paths.missing@.dom().len() >= NEGATIVE_PATH_CACHE_LIMIT {
                    Map::<Seq<char>, ()>::empty().insert(n, ())
                } else {
                    was.paths.missing@.insert(n, ())
                })
            },
            Err(_) => self.paths == was.paths,
        }
    }

    /// Where a path leads; what was found, or that nothing was, is remembered.
    pub fn resolve_existing(&mut self, path: &str) -> (r: Result<Found, Load>)
        requires
            old(self).wf(),
        ensures
            final(self).wf(),
            r == old(self).lookup_spec(path@),
            *final(self) == (Ext4Names { paths: final(self).paths, ..*old(self) }),
            final(self).path_remembered(old(self), path@),
    {
        let n = normalize_path(path);
        let r = self.lookup(path);
        if starts_with_slash(n.as_str()) {
            match r {
                Ok(Some(found)) => {
                    if !self.paths.found.contains_key(n.as_str()) {
                        self.paths.found.insert(n, found);
                    }
                    assert(self.paths.found@ =~= old(self).paths.found@.insert(
                        normalized(path@),
                        found,
                    ));
                },
                Ok(None) => {
                    if !self.paths.missing.contains_key(n.as_str()) {
                        self.paths.cache_negative_path(n.as_str());
                    }
                },
                Err(_) => {},
            }
        }
        r
    }

    /// The entries of a directory, if they are known.
    pub fn dir_entries(&self, ino: u32) -> (r: Result<&TextMap<DirChild>, Fault>)
        requires
            self.wf(),
        ensures
            match r {
                Ok(entries) => self.dirs@.contains_key(ino as u128) && *entries
                    == self.dirs@[ino as u128] && entries.wf(),
                Err(f) => !self.dirs@.contains_key(ino as u128) && f == Fault::Need(Load::Dir(ino)),
            },
    {
        match self.dirs.get(ino as u128) {
            Some(entries) => {
                assert(self.dirs@[ino as u128].wf());
                Ok(entries)
            },
            None => Err(Fault::Need(Load::Dir(ino))),
        }
    }

    /// Takes note of a directory whose entries were read.
    pub fn install_raw_dir(&mut self, ino: u32, raw: &Vec<RawEntry>)
        requires
            old(self).wf(),
        ensures
            final(self).wf(),
            final(self).dirs@.dom() == old(self).dirs@.dom().insert(ino as u128),
            final(self).dirs@.contains_key(ino as u128),
            final(self).dirs@[ino as u128]@ == table_of(raw@),
            forall|k: u128|
                k != ino as u128 && #[trigger] old(self).dirs@.contains_key(k)
                    ==> final(self).dirs@[k] == old(self).dirs@[k],
            *final(self) == (Ext4Names { dirs: final(self).dirs, ..*old(self) }),
    {
        let entries = dir_table(raw);
        self.install_dir(ino, entries);
        assert(self.dirs@.dom() =~= old(self).dirs@.dom().insert(ino as u128));
    }

    /// Takes note of a directory that was read.
    pub fn install_dir(&mut self, ino: u32, entries: TextMap<DirChild>)
        requires
            old(self).wf(),
            entries.wf(),
            is_proper(entries@),
        ensures
            final(self).wf(),
            final(self).dirs@ == old(self).dirs@.insert(ino as u128, entries),
            *final(self) == (Ext4Names { dirs: final(self).dirs, ..*old(self) }),
    {
        self.dirs.insert(ino as u128, entries);
    }

    /// Takes note of an inode that was read; if there are too many, the others
    /// are forgotten first.
    pub fn install_inode(&mut self, ino: u32, inode: DiskInode)
        requires
            old(self).wf(),
        ensures
            final(self).wf(),
            final(self).inodes@ == (if old(self).inodes@.dom().len() >= INODE_METADATA_CACHE_LIMIT {
                Map::<u128, DiskInode>::empty().insert(ino as u128, inode)
            } else {
                old(self).inodes@.insert(ino as u128, inode)
            }),
            *final(self) == (Ext4Names { inodes: final(self).inodes, ..*old(self) }),
    {
        if self.inodes.len() >= INODE_METADATA_CACHE_LIMIT {
            self.inodes.clear();
        }
        self.inodes.insert(ino as u128, inode);
    }

    /// Takes note of the target of a symbolic link that was read.
    pub fn install_link(&mut self, ino: u32, target: Vec<u8>)
        requires
            old(self).wf(),
        ensures
            final(self).wf(),
            final(self).links@ == old(self).links@.insert(ino as u128, target),
            *final(self) == (Ext4Names { links: final(self).links, ..*old(self) }),
    {
        self.links.insert(ino as u128, target);
    }

    /// Forgets an inode.
    pub fn invalidate_metadata_ino(&mut self, ino: u32)
        requires
            old(self).wf(),
        ensures
            final(self).wf(),
            final(self).inodes@ == old(self).inodes@.remove(ino as u128),
            final(self).links@ == old(self).links@.remove(ino as u128),
            *final(self) == (Ext4Names {
                inodes: final(self).inodes,
                links: final(self).links,
                ..*old(self)
            }),
    {
        let _ = self.inodes.remove(ino as u128);
        let _ = self.links.remove(ino as u128);
    }

    /// Forgets a directory and all paths that go through one of its entries.
    pub fn invalidate_namespace_entry(&mut self, parent_ino: u32, path: &str)
        requires
            old(self).wf(),
        ensures
            final(self).wf(),
            final(self).mounted == old(self).mounted,
            final(self).dirs@ == old(self).dirs@.remove(parent_ino as u128),
            final(self).inodes@ == old(self).inodes@.remove(parent_ino as u128),
            final(self).links@ == old(self).links@.remove(parent_ino as u128),
            final(self).paths.found@ == old(self).paths.found@.remove_keys(
                Set::new(|k: Seq<char>| in_tree(normalized(path@), k)),
            ),
            final(self).paths.missing@ == old(self).paths.missing@.remove_keys(
                Set::new(|k: Seq<char>| in_tree(normalized(path@), k)),
            ),
    {
        let _ = self.dirs.remove(parent_ino as u128);
        self.invalidate_metadata_ino(parent_ino);
        self.paths.invalidate_path_cache(path);
    }

    /// Forgets all that is known.
    pub fn clear_namespace_cache(&mut self)
        ensures
            final(self).wf(),
            final(self).mounted == old(self).mounted,
            final(self).dirs@ == Map::<u128, TextMap<DirChild>>::empty(),
            final(self).inodes@ == Map::<u128, DiskInode>::empty(),
            final(self).links@ == Map::<u128, Vec<u8>>::empty(),
            final(self).paths.found@ == Map::<Seq<char>, (u32, Ext4NodeKind)>::empty(),
            final(self).paths.missing@ == Map::<Seq<char>, ()>::empty(),
    {
        self.paths.clear();
        self.dirs.clear();
        self.inodes.clear();
        self.links.clear();
    }
}

/// How many inodes are remembered.
pub const INODE_METADATA_CACHE_LIMIT: usize = 131072;

/// As long as all that is remembered is so on disk, a path leads where it leads
/// on disk.
pub proof fn lookup_tells_the_disk(v: &Ext4Names, disk: TreeModel, path: Seq<char>)
    requires
        v.tree().part_of(disk),
        v.paths_true(disk),
        is_absolute(normalized(path)),
    ensures
        v.lookup_spec(path) is Ok ==> v.lookup_spec(path) == disk.walk(
            ROOT_INODE,
            parts_of(normalized(path)),
        ),
{
    known_part_leads_alike(v.tree(), disk, ROOT_INODE, parts_of(normalized(path)));
}

/// Remembering where a path leads keeps what is remembered true.
pub proof fn remembered_paths_stay_true(
    before: &Ext4Names,
    after: &Ext4Names,
    disk: TreeModel,
    path: Seq<char>,
)
    requires
        before.tree().part_of(disk),
        before.paths_true(disk),
        is_absolute(normalized(path)),
        after.path_remembered(before, path),
    ensures
        after.paths_true(disk),
        after.lookup_spec(path) == before.lookup_spec(path),
{
    lookup_tells_the_disk(before, disk, path);
    if before.lookup_spec(path) == Ok::<Found, Load>(None) {
        assert(!after.paths.found@.contains_key(normalized(path)));
    }
}

/// Forgetting a path and all below it keeps what is remembered true on a disk
/// that has changed only there.
pub proof fn forgetting_keeps_paths_true(
    before: &Ext4Names,
    after: &Ext4Names,
    disk: TreeModel,
    changed: TreeModel,
    path: Seq<char>,
)
    requires
        before.paths_true(disk),
        after.paths.found@ == before.paths.found@.remove_keys(
            Set::new(|k: Seq<char>| in_tree(normalized(path), k)),
        ),
        after.paths.missing@ == before.paths.missing@.remove_keys(
            Set::new(|k: Seq<char>| in_tree(normalized(path), k)),
        ),
        forall|k: Seq<char>|
            !in_tree(normalized(path), k) ==> #[trigger] changed.walk(ROOT_INODE, parts_of(k))
                == disk.walk(ROOT_INODE, parts_of(k)),
    ensures
        after.paths_true(changed),
{
    assert forall|k: Seq<char>| #[trigger] after.paths.found@.contains_key(k) implies changed.walk(
        ROOT_INODE,
        parts_of(k),
    ) == Ok::<Found, Load>(Some(after.paths.found@[k])) by {
        assert(before.paths.found@.contains_key(k));
    }
    assert forall|k: Seq<char>| #[trigger]
        after.paths.missing@.contains_key(k) implies changed.walk(ROOT_INODE, parts_of(k)) == Ok::<
        Found,
        Load,
    >(None) by {
        assert(before.paths.missing@.contains_key(k));
    }
}

} // verus!
