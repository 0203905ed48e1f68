//! Listings of the directories of an ext4 volume.
use vstd::prelude::*;

use crate::errno::SysErrNo;
use crate::fs::ext4::types::{kind_of_mode, node_kind, DiskInode, Ext4NodeKind};
use crate::fs::ext4::volume::{DirChild, Ext4Names, Fault, Load, ROOT_INODE};
use crate::fs::path::{all_names, is_plain, join, lemma_parts_of_render, normalized, render};
use crate::text::{concat, concat3, str_eq, texts};
use crate::textmap::{listing, listing_of_map, lists, TextMap};

verus! {

/// The entries of a directory in the order of their names.
pub open spec fn listed(dir: Map<Seq<char>, DirChild>) -> Seq<(Seq<char>, u32, bool)> {
    listing(dir.dom()).map_values(|k: Seq<char>| (k, dir[k].ino, dir[k].is_dir))
}

/// What an inode's directory holds, or what is missing to say so.
pub open spec fn listed_at(v: &Ext4Names, ino: u32) -> Result<Seq<(Seq<char>, u32, bool)>, Fault> {
    if !v.mounted {
        Err(Fault::Sys(SysErrNo::ENOENT))
    } else if !v.dirs@.contains_key(ino as u128) {
        Err(Fault::Need(Load::Dir(ino)))
    } else {
        Ok(listed(v.dirs@[ino as u128]@))
    }
}

/// The views of listed entries.
pub open spec fn listed_views(s: Seq<(u32, String, bool)>) -> Seq<(Seq<char>, u32, bool)> {
    s.map_values(|e: (u32, String, bool)| (e.1@, e.0, e.2))
}

/// The names of listed entries.
pub open spec fn listed_names(s: Seq<(u32, String, bool)>) -> Seq<Seq<char>> {
    s.map_values(|e: (u32, String, bool)| e.1@)
}

impl Ext4Names {
    /// The entries of a directory: inode, name, and whether it is a directory.
    pub fn ext4_list_dir_by_ino(&self, ino: u32) -> (r: Result<Vec<(u32, String, bool)>, Fault>)
        requires
            self.wf(),
        ensures
            match r {
                Ok(out) => listed_at(self, ino) == Ok::<Seq<(Seq<char>, u32, bool)>, Fault>(
                    listed_views(out@),
                ) && lists(listed_names(out@), self.dirs@[ino as u128]@.dom()) && forall|i: int|
                    0 <= i < out@.len() ==> (#[trigger] out@[i]).1@ != "."@ && out@[i].1@ != ".."@
                        && self.dirs@[ino as u128]@.contains_key(out@[i].1@),
                Err(f) => listed_at(self, ino) == Err::<Seq<(Seq<char>, u32, bool)>, Fault>(f),
            },
    {
        if !self.mounted {
            return Err(Fault::Sys(SysErrNo::ENOENT));
        }
        let entries = match self.dir_entries(ino) {
            Ok(entries) => entries,
            Err(f) => {
                return Err(f);
            },
        };
        let mut out: Vec<(u32, String, bool)> = Vec::new();
        proof {
            listing_of_map(entries);
            assert(listed_views(out@) =~= Seq::empty());
            assert(listed(entries@).take(0) =~= Seq::empty());
        }
        let n: usize = entries.len();
        let mut i: usize = 0;
        while i < n
            invariant
                entries.wf(),
                n == entries.keys().len(),
                entries.keys() == listing(entries@.dom()),
                0 <= i <= n,
                listed_views(out@) == listed(entries@).take(i as int),
            decreases n - i,
        {
            let ghost before = listed_views(out@);
            let child = *entries.value_at(i);
            let name: String = entries.key_at(i).clone();
            out.push((child.ino, name, child.is_dir));
            assert(listed_views(out@) =~= before.push((name@, child.ino, child.is_dir)));
            assert(listed(entries@).take(i + 1) =~= listed(entries@).take(i as int).push(
                listed(entries@)[i as int],
            ));
            i = i + 1;
        }
        assert(listed(entries@).take(i as int) =~= listed(entries@));
        proof {
            entries.keys_list_domain();
            assert(listed_names(out@) =~= entries.keys()) by {
                assert forall|j: int| 0 <= j < out@.len() implies out@[j].1@ == entries.keys()[j] by {
                    assert(listed_views(out@)[j].0 == out@[j].1@);
                }
            }
            assert forall|j: int| 0 <= j < out@.len() implies (#[trigger] out@[j]).1@ != "."@
                && out@[j].1@ != ".."@ && entries@.contains_key(out@[j].1@) by {
                assert(listed_names(out@)[j] == out@[j].1@);
                assert(entries.keys().contains(out@[j].1@));
            }
        }
        Ok(out)
    }

    /// The entries of the directory at a path: name, and whether it is a
    /// directory.
    pub fn ext4_list_dir(&self, dir_path: &str) -> (r: Result<Vec<(String, bool)>, Fault>)
        requires
            self.wf(),
        ensures
            match self.find_spec(dir_path@) {
                Err(f) => r == Err::<Vec<(String, bool)>, Fault>(f),
                Ok((ino, kind)) => if kind != Ext4NodeKind::Directory {
                    r == Err::<Vec<(String, bool)>, Fault>(Fault::Sys(SysErrNo::ENOTDIR))
                } else {
                    match listed_at(self, ino) {
                        Err(f) => r == Err::<Vec<(String, bool)>, Fault>(f),
                        Ok(all) => r is Ok && r->Ok_0@.len() == all.len() && forall|i: int|
                            0 <= i < all.len() ==> (#[trigger] r->Ok_0@[i]).0@ == all[i].0
                                && r->Ok_0@[i].1 == all[i].2,
                    }
                },
            },
    {
        let (ino, kind) = match self.find(dir_path) {
            Ok(found) => found,
            Err(f) => {
                return Err(f);
            },
        };
        if kind != Ext4NodeKind::Directory {
            return Err(Fault::Sys(SysErrNo::ENOTDIR));
        }
        let all = match self.ext4_list_dir_by_ino(ino) {
            Ok(all) => all,
            Err(f) => {
                return Err(f);
            },
        };
        let mut out: Vec<(String, bool)> = Vec::new();
        let mut i: usize = 0;
        while i < all.len()
            invariant
                0 <= i <= all@.len(),
                out@.len() == i,
                forall|j: int|
                    0 <= j < i ==> (#[trigger] out@[j]).0@ == all@[j].1@ && out@[j].1 == all@[j].2,
            decreases all@.len() - i,
        {
            let name: String = all[i].1.clone();
            out.push((name, all[i].2));
            i = i + 1;
        }
        assert forall|j: int| 0 <= j < out@.len() implies (#[trigger] out@[j]).0@ == listed_views(
            all@,
        )[j].0 && out@[j].1 == listed_views(all@)[j].2 by {}
        Ok(out)
    }
}

/// Whether an inode is known and of a kind.
pub open spec fn known_as(inodes: Map<u128, DiskInode>, ino: u32, kind: Ext4NodeKind) -> bool {
    inodes.contains_key(ino as u128) && kind_of_mode(inodes[ino as u128].mode) == kind
}

/// Whether names lead from a directory to a regular file.
pub open spec fn leads_to_file(
    dirs: Map<u128, TextMap<DirChild>>, inodes: Map<u128, DiskInode>,
    from: u32,
    names: Seq<Seq<char>>,
) -> bool
    decreases names.len(),
{
    names.len() > 0 && dirs.contains_key(from as u128) && dirs[from as u128]@.contains_key(names[0])
        && {
        let child = dirs[from as u128]@[names[0]];
        if names.len() == 1 {
            known_as(inodes, child.ino, Ext4NodeKind::Regular)
        } else {
            known_as(inodes, child.ino, Ext4NodeKind::Directory) && leads_to_file(dirs, inodes, child.ino, names.drop_first())
        }
    }
}

/// The tree below a directory is no deeper than so many levels.
pub open spec fn no_deeper(dirs: Map<u128, TextMap<DirChild>>, inodes: Map<u128, DiskInode>, ino: u32, h: nat) -> bool
    decreases h,
{
    dirs.contains_key(ino as u128) ==> forall|name: Seq<char>| #[trigger]
        dirs[ino as u128]@.contains_key(name) && known_as(inodes, dirs[ino as u128]@[name].ino, Ext4NodeKind::Directory) ==> h > 0
            && no_deeper(dirs, inodes, dirs[ino as u128]@[name].ino, (h - 1) as nat)
}

/// Whether a depth is the least that bounds the tree below a directory.
pub open spec fn is_height(dirs: Map<u128, TextMap<DirChild>>, inodes: Map<u128, DiskInode>, ino: u32, h: nat) -> bool {
    no_deeper(dirs, inodes, ino, h) && forall|g: nat| g < h ==> !#[trigger] no_deeper(dirs, inodes, ino, g)
}

/// The depth of the tree below a directory.
pub open spec fn height(dirs: Map<u128, TextMap<DirChild>>, inodes: Map<u128, DiskInode>, ino: u32) -> nat {
    choose|h: nat| is_height(dirs, inodes, ino, h)
}

proof fn lemma_height(dirs: Map<u128, TextMap<DirChild>>, inodes: Map<u128, DiskInode>, ino: u32, h: nat)
    requires
        no_deeper(dirs, inodes, ino, h),
    ensures
        is_height(dirs, inodes, ino, height(dirs, inodes, ino)),
        height(dirs, inodes, ino) <= h,
    decreases h,
{
    if exists|g: nat| g < h && #[trigger] no_deeper(dirs, inodes, ino, g) {
        let g = choose|g: nat| g < h && #[trigger] no_deeper(dirs, inodes, ino, g);
        lemma_height(dirs, inodes, ino, g);
    } else {
        assert(is_height(dirs, inodes, ino, h));
        let k = height(dirs, inodes, ino);
        assert(is_height(dirs, inodes, ino, k));
        if k > h {
            assert(!no_deeper(dirs, inodes, ino, h));
        }
    }
}

proof fn lemma_child_lower(dirs: Map<u128, TextMap<DirChild>>, inodes: Map<u128, DiskInode>, ino: u32, name: Seq<char>)
    requires
        exists|h: nat| no_deeper(dirs, inodes, ino, h),
        dirs.contains_key(ino as u128),
        dirs[ino as u128]@.contains_key(name),
        known_as(inodes, dirs[ino as u128]@[name].ino, Ext4NodeKind::Directory),
    ensures
        height(dirs, inodes, dirs[ino as u128]@[name].ino) < height(dirs, inodes, ino),
        exists|h: nat| #[trigger] no_deeper(dirs, inodes, dirs[ino as u128]@[name].ino, h),
{
    let h = choose|h: nat| no_deeper(dirs, inodes, ino, h);
    lemma_height(dirs, inodes, ino, h);
    let k = height(dirs, inodes, ino);
    assert(no_deeper(dirs, inodes, ino, k));
    let child = dirs[ino as u128]@[name].ino;
    assert(k > 0 && no_deeper(dirs, inodes, child, (k - 1) as nat));
    lemma_height(dirs, inodes, child, (k - 1) as nat);
}

/// The path of an entry of a directory.
pub open spec fn entry_path(dir: Seq<char>, name: Seq<char>) -> Seq<char> {
    if dir == seq!['/'] {
        dir + name
    } else {
        dir.push('/') + name
    }
}

/// The path that names lead to from a directory.
pub open spec fn below(dir: Seq<char>, names: Seq<Seq<char>>) -> Seq<char>
    decreases names.len(),
{
    if names.len() == 0 {
        dir
    } else {
        below(entry_path(dir, names[0]), names.drop_first())
    }
}

/// The paths of all regular files below a directory.
pub open spec fn files_below(
    dirs: Map<u128, TextMap<DirChild>>, inodes: Map<u128, DiskInode>,
    dir: Seq<char>,
    ino: u32,
) -> Set<Seq<char>> {
    Set::new(
        |p: Seq<char>|
            exists|names: Seq<Seq<char>>| #[trigger]
                leads_to_file(dirs, inodes, ino, names) && p == below(dir, names),
    )
}

/// The paths of all regular files at or below an entry of a directory.
pub open spec fn files_of_entry(
    dirs: Map<u128, TextMap<DirChild>>, inodes: Map<u128, DiskInode>,
    dir: Seq<char>,
    ino: u32,
    name: Seq<char>,
) -> Set<Seq<char>> {
    let child = dirs[ino as u128]@[name].ino;
    if known_as(inodes, child, Ext4NodeKind::Directory) {
        files_below(dirs, inodes, entry_path(dir, name), child)
    } else if known_as(inodes, child, Ext4NodeKind::Regular) {
        set![entry_path(dir, name)]
    } else {
        Set::empty()
    }
}

proof fn lemma_entry_files(
    dirs: Map<u128, TextMap<DirChild>>, inodes: Map<u128, DiskInode>,
    dir: Seq<char>,
    ino: u32,
    name: Seq<char>,
    p: Seq<char>,
)
    requires
        dirs.contains_key(ino as u128),
        dirs[ino as u128]@.contains_key(name),
    ensures
        files_of_entry(dirs, inodes, dir, ino, name).contains(p) <==> exists|names: Seq<Seq<char>>|
            #[trigger] leads_to_file(dirs, inodes, ino, names) && names[0] == name && p == below(dir, names),
{
    let child = dirs[ino as u128]@[name];
    let sub = entry_path(dir, name);
    let one = seq![name];
    assert(one.drop_first() =~= Seq::empty());
    assert(below(sub, Seq::empty()) == sub);
    assert(below(dir, one) == sub);
    if files_of_entry(dirs, inodes, dir, ino, name).contains(p) {
        if known_as(inodes, child.ino, Ext4NodeKind::Directory) {
            let rest = choose|names: Seq<Seq<char>>| #[trigger]
                leads_to_file(dirs, inodes, child.ino, names) && p == below(sub, names);
            let names = one + rest;
            assert(names.drop_first() =~= rest);
            assert(leads_to_file(dirs, inodes, ino, names));
        } else {
            assert(leads_to_file(dirs, inodes, ino, one));
        }
    }
    if exists|names: Seq<Seq<char>>| #[trigger]
        leads_to_file(dirs, inodes, ino, names) && names[0] == name && p == below(dir, names) {
        let names = choose|names: Seq<Seq<char>>| #[trigger]
            leads_to_file(dirs, inodes, ino, names) && names[0] == name && p == below(dir, names);
        if known_as(inodes, child.ino, Ext4NodeKind::Directory) {
            assert(leads_to_file(dirs, inodes, child.ino, names.drop_first()));
        } else {
            assert(names =~= one);
        }
    }
}

/// Some directory or inode below this directory has not been read yet, and this
/// is one of them.
pub open spec fn unread_below(dirs: Map<u128, TextMap<DirChild>>, inodes: Map<u128, DiskInode>, ino: u32, load: Load, h: nat) -> bool
    decreases h,
{
    if !dirs.contains_key(ino as u128) {
        load == Load::Dir(ino)
    } else {
        exists|name: Seq<char>| #[trigger]
            dirs[ino as u128]@.contains_key(name) && {
                let child = dirs[ino as u128]@[name].ino;
                ||| !inodes.contains_key(child as u128) && load == Load::Inode(child)
                ||| known_as(inodes, child, Ext4NodeKind::Directory) && h > 0 && unread_below(
                    dirs,
                    inodes,
                    child,
                    load,
                    (h - 1) as nat,
                )
            }
    }
}

proof fn lemma_unread_deeper(
    dirs: Map<u128, TextMap<DirChild>>, inodes: Map<u128, DiskInode>,
    ino: u32,
    load: Load,
    h: nat,
    k: nat,
)
    requires
        h <= k,
        unread_below(dirs, inodes, ino, load, h),
    ensures
        unread_below(dirs, inodes, ino, load, k),
    decreases h,
{
    if dirs.contains_key(ino as u128) {
        let name = choose|name: Seq<char>| #[trigger]
            dirs[ino as u128]@.contains_key(name) && {
                let child = dirs[ino as u128]@[name].ino;
                ||| !inodes.contains_key(child as u128) && load == Load::Inode(child)
                ||| known_as(inodes, child, Ext4NodeKind::Directory) && h > 0 && unread_below(
                    dirs,
                    inodes,
                    child,
                    load,
                    (h - 1) as nat,
                )
            };
        let child = dirs[ino as u128]@[name].ino;
        if inodes.contains_key(child as u128) {
            lemma_unread_deeper(dirs, inodes, child, load, (h - 1) as nat, (k - 1) as nat);
        }
    }
}

proof fn lemma_unread_shallower(
    dirs: Map<u128, TextMap<DirChild>>, inodes: Map<u128, DiskInode>,
    ino: u32,
    load: Load,
    h: nat,
    k: nat,
)
    requires
        no_deeper(dirs, inodes, ino, h),
        unread_below(dirs, inodes, ino, load, k),
    ensures
        unread_below(dirs, inodes, ino, load, h),
    decreases h,
{
    if dirs.contains_key(ino as u128) {
        let name = choose|name: Seq<char>| #[trigger]
            dirs[ino as u128]@.contains_key(name) && {
                let child = dirs[ino as u128]@[name].ino;
                ||| !inodes.contains_key(child as u128) && load == Load::Inode(child)
                ||| known_as(inodes, child, Ext4NodeKind::Directory) && k > 0 && unread_below(
                    dirs,
                    inodes,
                    child,
                    load,
                    (k - 1) as nat,
                )
            };
        let child = dirs[ino as u128]@[name].ino;
        if inodes.contains_key(child as u128) {
            lemma_unread_shallower(dirs, inodes, child, load, (h - 1) as nat, (k - 1) as nat);
        }
    }
}

/// All directories at or below this one have been read, and the inodes of what
/// they hold.
pub open spec fn all_read_below(dirs: Map<u128, TextMap<DirChild>>, inodes: Map<u128, DiskInode>, ino: u32) -> bool {
    forall|load: Load| !#[trigger] unread_below(dirs, inodes, ino, load, height(dirs, inodes, ino))
}

impl Ext4Names {
    /// The tree of known directories has no cycle below an inode.
    pub open spec fn is_tree(&self, ino: u32) -> bool {
        exists|h: nat| no_deeper(self.dirs@, self.inodes@, ino, h)
    }

    fn ext4_gather_file_paths(
        &self,
        dir_path: &str,
        parent_ino: u32,
        out: &mut TextMap<()>,
    ) -> (r: Result<(), Load>)
        requires
            self.wf(),
            self.is_tree(parent_ino),
            old(out).wf(),
        ensures
            final(out).wf(),
            match r {
                Ok(_) => all_read_below(self.dirs@, self.inodes@, parent_ino) && final(out)@.dom() == old(
                    out,
                )@.dom().union(files_below(self.dirs@, self.inodes@, dir_path@, parent_ino)),
                Err(load) => unread_below(
                    self.dirs@, self.inodes@,
                    parent_ino,
                    load,
                    height(self.dirs@, self.inodes@, parent_ino),
                ),
            },
        decreases height(self.dirs@, self.inodes@, parent_ino),
    {
        let ghost dirs = self.dirs@;
        let ghost inodes = self.inodes@;
        let ghost start = out@.dom();
        let entries = match self.dirs.get(parent_ino as u128) {
            Some(entries) => entries,
            None => {
                return Err(Load::Dir(parent_ino));
            },
        };
        assert(self.dirs@[parent_ino as u128].wf());
        let n: usize = entries.len();
        let ghost keys = entries.keys();
        proof {
            entries.keys_list_domain();
            reveal_strlit("/");
            assert("/"@ =~= seq!['/']);
        }
        let mut i: usize = 0;
        while i < n
            invariant
                self.wf(),
                self.is_tree(parent_ino),
                dirs == self.dirs@,
                inodes == self.inodes@,
                dirs.contains_key(parent_ino as u128),
                *entries == dirs[parent_ino as u128],
                entries.wf(),
                keys == entries.keys(),
                n == keys.len(),
                lists(keys, entries@.dom()),
                "/"@ == seq!['/'],
                0 <= i <= n,
                out.wf(),
                forall|j: int|
                    0 <= j < i && known_as(
                        inodes,
                        dirs[parent_ino as u128]@[#[trigger] keys[j]].ino,
                        Ext4NodeKind::Directory,
                    ) ==> all_read_below(dirs, inodes, dirs[parent_ino as u128]@[keys[j]].ino),
                forall|j: int|
                    0 <= j < i ==> inodes.contains_key(
                        dirs[parent_ino as u128]@[#[trigger] keys[j]].ino as u128,
                    ),
                forall|p: Seq<char>| #[trigger]
                    out@.contains_key(p) <==> start.contains(p) || exists|j: int|
                        0 <= j < i && #[trigger] files_of_entry(
                            dirs, inodes,
                            dir_path@,
                            parent_ino,
                            keys[j],
                        ).contains(p),
            decreases n - i,
        {
            let ghost had = out@;
            let child = *entries.value_at(i);
            let name = entries.key_at(i);
            let ghost key = name@;
            assert(entry_path(dir_path@, key) =~= (if dir_path@ == seq!['/'] {
                "/"@ + key
            } else {
                dir_path@ + "/"@ + key
            }));
            let full = if str_eq(dir_path, "/") {
                concat("/", name.as_str())
            } else {
                concat3(dir_path, "/", name.as_str())
            };
            let kind = match self.inodes.get(child.ino as u128) {
                Some(inode) => node_kind(inode.mode),
                None => {
                    assert(dirs[parent_ino as u128]@.contains_key(key));
                    return Err(Load::Inode(child.ino));
                },
            };
            if kind == Ext4NodeKind::Directory {
                proof {
                    lemma_child_lower(dirs, inodes, parent_ino, key);
                }
                match self.ext4_gather_file_paths(full.as_str(), child.ino, out) {
                    Ok(_) => {},
                    Err(load) => {
                        proof {
                            lemma_unread_deeper(
                                dirs, inodes,
                                child.ino,
                                load,
                                height(dirs, inodes, child.ino),
                                (height(dirs, inodes, parent_ino) - 1) as nat,
                            );
                            assert(dirs[parent_ino as u128]@.contains_key(key));
                        }
                        return Err(load);
                    },
                }
            } else if kind == Ext4NodeKind::Regular {
                out.insert(full, ());
            }
            proof {
                let here = files_of_entry(dirs, inodes, dir_path@, parent_ino, key);
                assert(key == keys[i as int]);
                assert forall|p: Seq<char>| #[trigger] out@.contains_key(p) <==> start.contains(p)
                    || exists|j: int|
                    0 <= j < i + 1 && #[trigger] files_of_entry(
                        dirs, inodes,
                        dir_path@,
                        parent_ino,
                        keys[j],
                    ).contains(p) by {
                    assert(out@.contains_key(p) <==> had.contains_key(p) || here.contains(p)) by {
                        if kind == Ext4NodeKind::Directory {
                            assert(out@.dom().contains(p) <==> had.dom().contains(p)
                                || here.contains(p));
                        }
                    }
                    if here.contains(p) {
                        assert(files_of_entry(dirs, inodes, dir_path@, parent_ino, keys[i as int]).contains(
                            p,
                        ));
                    }
                }
            }
            i = i + 1;
        }
        proof {
            assert forall|load: Load| !#[trigger] unread_below(
                dirs, inodes,
                parent_ino,
                load,
                height(dirs, inodes, parent_ino),
            ) by {
                let h = height(dirs, inodes, parent_ino);
                if unread_below(dirs, inodes, parent_ino, load, h) {
                    let name = choose|name: Seq<char>| #[trigger]
                        dirs[parent_ino as u128]@.contains_key(name) && {
                            let child = dirs[parent_ino as u128]@[name].ino;
                            ||| !inodes.contains_key(child as u128) && load == Load::Inode(child)
                            ||| known_as(inodes, child, Ext4NodeKind::Directory) && h > 0
                                && unread_below(dirs, inodes, child, load, (h - 1) as nat)
                        };
                    let ino = dirs[parent_ino as u128]@[name].ino;
                    assert(entries@.dom().contains(name));
                    assert(keys.contains(name));
                    let j = choose|j: int| 0 <= j < keys.len() && keys[j] == name;
                    assert(inodes.contains_key(ino as u128));
                    lemma_child_lower(dirs, inodes, parent_ino, name);
                    let g = choose|g: nat| #[trigger] no_deeper(dirs, inodes, ino, g);
                    lemma_height(dirs, inodes, ino, g);
                    lemma_unread_shallower(dirs, inodes, ino, load, height(dirs, inodes, ino), (h - 1) as nat);
                    assert(all_read_below(dirs, inodes, ino));
                }
            }
            let all = files_below(dirs, inodes, dir_path@, parent_ino);
            assert forall|p: Seq<char>| out@.dom().contains(p) <==> #[trigger] start.union(
                all,
            ).contains(p) by {
                assert(out@.contains_key(p) <==> out@.dom().contains(p));
                if all.contains(p) {
                    let names = choose|names: Seq<Seq<char>>| #[trigger]
                        leads_to_file(dirs, inodes, parent_ino, names) && p == below(dir_path@, names);
                    assert(entries@.dom().contains(names[0]));
                    assert(keys.contains(names[0]));
                    let j = choose|j: int| 0 <= j < keys.len() && keys[j] == names[0];
                    lemma_entry_files(dirs, inodes, dir_path@, parent_ino, names[0], p);
                    assert(files_of_entry(dirs, inodes, dir_path@, parent_ino, keys[j]).contains(p));
                }
                if exists|j: int|
                    0 <= j < n && #[trigger] files_of_entry(
                        dirs, inodes,
                        dir_path@,
                        parent_ino,
                        keys[j],
                    ).contains(p) {
                    let j = choose|j: int|
                        0 <= j < n && #[trigger] files_of_entry(
                            dirs, inodes,
                            dir_path@,
                            parent_ino,
                            keys[j],
                        ).contains(p);
                    assert(keys.contains(keys[j]));
                    lemma_entry_files(dirs, inodes, dir_path@, parent_ino, keys[j], p);
                }
            }
            assert(out@.dom() =~= start.union(all));
        }
        Ok(())
    }

    /// The paths of all regular files on the volume: none where there is none.
    pub open spec fn all_files(&self) -> Set<Seq<char>> {
        if self.mounted {
            files_below(self.dirs@, self.inodes@, seq!['/'], ROOT_INODE)
        } else {
            Set::empty()
        }
    }

    /// The paths of all regular files on the volume, in order. The directories
    /// form a tree, as they do on every volume.
    pub fn ext4_list_all_file_paths(&self) -> (r: Result<Vec<String>, Load>)
        requires
            self.wf(),
            self.is_tree(ROOT_INODE),
        ensures
            match r {
                Ok(out) => (self.mounted ==> all_read_below(self.dirs@, self.inodes@, ROOT_INODE))
                    && lists(texts(out@), self.all_files()) && texts(out@) == listing(
                    self.all_files(),
                ),
                Err(load) => self.mounted && unread_below(
                    self.dirs@,
                    self.inodes@,
                    ROOT_INODE,
                    load,
                    height(self.dirs@, self.inodes@, ROOT_INODE),
                ),
            },
    {
        let mut out: TextMap<()> = TextMap::new();
        if self.mounted {
            proof {
                reveal_strlit("/");
                assert("/"@ =~= seq!['/']);
            }
            match self.ext4_gather_file_paths("/", ROOT_INODE, &mut out) {
                Ok(_) => {},
                Err(load) => {
                    return Err(load);
                },
            }
            assert(out@.dom() =~= files_below(self.dirs@, self.inodes@, seq!['/'], ROOT_INODE));
        } else {
            assert(out@.dom() =~= Set::empty());
        }
        Ok(keys_of(&out))
    }

    /// The given paths and those of all files on the volume, each once and in
    /// order.
    pub fn merged_list_all_file_paths(&self, mem_paths: Vec<String>) -> (r: Result<
        Vec<String>,
        Load,
    >)
        requires
            self.wf(),
            self.is_tree(ROOT_INODE),
        ensures
            match r {
                Ok(out) => {
                    let all = texts(mem_paths@).to_set().union(self.all_files());
                    &&& self.mounted ==> all_read_below(self.dirs@, self.inodes@, ROOT_INODE)
                    &&& lists(texts(out@), all)
                    &&& texts(out@) == listing(all)
                },
                Err(load) => self.mounted && unread_below(
                    self.dirs@,
                    self.inodes@,
                    ROOT_INODE,
                    load,
                    height(self.dirs@, self.inodes@, ROOT_INODE),
                ),
            },
    {
        let mut out: TextMap<()> = TextMap::new();
        let ghost given = texts(mem_paths@);
        let mut i: usize = 0;
        while i < mem_paths.len()
            invariant
                0 <= i <= mem_paths@.len(),
                given == texts(mem_paths@),
                out.wf(),
                forall|p: Seq<char>| #[trigger]
                    out@.contains_key(p) <==> exists|j: int| 0 <= j < i && #[trigger] given[j] == p,
            decreases mem_paths@.len() - i,
        {
            let ghost had = out@;
            let path: String = mem_paths[i].clone();
            out.insert(path, ());
            proof {
                assert(given[i as int] == mem_paths@[i as int]@);
                assert forall|p: Seq<char>| #[trigger] out@.contains_key(p) <==> exists|j: int|
                    0 <= j < i + 1 && #[trigger] given[j] == p by {
                    assert(out@.contains_key(p) <==> had.contains_key(p) || p == given[i as int]);
                }
            }
            i = i + 1;
        }
        proof {
            assert forall|p: Seq<char>| out@.dom().contains(p) <==> #[trigger]
                given.to_set().contains(p) by {
                assert(out@.contains_key(p) <==> out@.dom().contains(p));
                assert(given.contains(p) <==> given.to_set().contains(p));
            }
            assert(out@.dom() =~= given.to_set());
            reveal_strlit("/");
            assert("/"@ =~= seq!['/']);
        }
        if self.mounted {
            match self.ext4_gather_file_paths("/", ROOT_INODE, &mut out) {
                Ok(_) => {},
                Err(load) => {
                    return Err(load);
                },
            }
        } else {
            assert(out@.dom() =~= given.to_set().union(Set::empty()));
        }
        Ok(keys_of(&out))
    }
}

/// The keys of a map in order.
pub fn keys_of<V>(m: &TextMap<V>) -> (r: Vec<String>)
    requires
        m.wf(),
    ensures
        texts(r@) == listing(m@.dom()),
        lists(texts(r@), m@.dom()),
{
    let mut r: Vec<String> = Vec::new();
    let n: usize = m.len();
    let mut i: usize = 0;
    proof {
        listing_of_map(m);
        m.keys_list_domain();
        assert(texts(r@) =~= m.keys().take(0));
    }
    while i < n
        invariant
            m.wf(),
            n == m.keys().len(),
            0 <= i <= n,
            lists(m.keys(), m@.dom()),
            texts(r@) == m.keys().take(i as int),
        decreases n - i,
    {
        let ghost before = texts(r@);
        let key: String = m.key_at(i).clone();
        r.push(key);
        assert(texts(r@) =~= before.push(m.keys()[i as int]));
        assert(m.keys().take(i + 1) =~= before.push(m.keys()[i as int]));
        i = i + 1;
    }
    assert(m.keys().take(i as int) =~= m.keys());
    r
}

proof fn lemma_leads_as_walk(v: &Ext4Names, from: u32, names: Seq<Seq<char>>)
    ensures
        leads_to_file(v.dirs@, v.inodes@, from, names) <==> names.len() > 0 && v.tree().walk(
            from,
            names,
        ) is Ok && v.tree().walk(from, names)->Ok_0 is Some && v.tree().walk(
            from,
            names,
        )->Ok_0->Some_0.1 == Ext4NodeKind::Regular,
    decreases names.len(),
{
    let t = v.tree();
    if names.len() > 0 && v.dirs@.contains_key(from as u128) && v.dirs@[from as u128]@.contains_key(
        names[0],
    ) {
        assert(t.dirs[from as u128] == v.dirs@[from as u128]@);
        let child = v.dirs@[from as u128]@[names[0]].ino;
        let rest = names.drop_first();
        lemma_leads_as_walk(v, child, rest);
        if names.len() == 1 {
            assert(rest.len() == 0);
        }
    }
}

proof fn lemma_below_is_rendered(lead: Seq<Seq<char>>, names: Seq<Seq<char>>)
    requires
        all_names(lead),
        all_names(names),
    ensures
        below(render(true, lead), names) == render(true, lead + names),
    decreases names.len(),
{
    if names.len() == 0 {
        assert(lead + names =~= lead);
    } else {
        let dir = render(true, lead);
        let next = lead.push(names[0]);
        assert(next.drop_last() =~= lead);
        assert(next.last() == names[0]);
        if lead.len() == 0 {
            assert(join(lead) =~= Seq::<char>::empty());
            assert(dir =~= seq!['/']);
            assert(next =~= seq![names[0]]);
            assert(entry_path(dir, names[0]) =~= render(true, next));
        } else {
            lemma_parts_of_render(true, lead);
            if dir == seq!['/'] {
                lemma_parts_of_render(true, Seq::empty());
                assert(join(Seq::<Seq<char>>::empty()) =~= Seq::<char>::empty());
                assert(render(true, Seq::empty()) =~= seq!['/']);
                assert(false);
            }
            assert(join(next) == join(lead).push('/') + names[0]);
            assert(entry_path(dir, names[0]) =~= render(true, next));
        }
        assert(all_names(next));
        assert(all_names(names.drop_first()));
        lemma_below_is_rendered(next, names.drop_first());
        assert(next + names.drop_first() =~= lead + names);
    }
}

/// What is listed of a volume are its regular files: a path that leads to a
/// regular file is listed, and by names that lead elsewhere none is.
pub proof fn listed_are_the_regular_files(v: &Ext4Names, names: Seq<Seq<char>>)
    requires
        v.mounted,
        names.len() > 0,
        all_names(names),
        forall|k: u128, name: Seq<char>|
            v.dirs@.contains_key(k) && #[trigger] v.dirs@[k]@.contains_key(name) ==> is_plain(name)
                && !name.contains('/'),
        !v.paths.found@.contains_key(render(true, names)),
        !v.paths.missing@.contains_key(render(true, names)),
    ensures
        v.all_files().contains(render(true, names)) <==> v.leads_to(
            render(true, names),
            Ext4NodeKind::Regular,
        ),
{
    let path = render(true, names);
    let none = Seq::<Seq<char>>::empty();
    lemma_parts_of_render(true, names);
    assert(join(none) =~= Seq::<char>::empty());
    assert(render(true, none) =~= seq!['/']);
    assert(normalized(path) == path);
    lemma_leads_as_walk(v, ROOT_INODE, names);
    lemma_below_is_rendered(none, names);
    assert(none + names =~= names);
    if v.all_files().contains(path) {
        let found = choose|f: Seq<Seq<char>>| #[trigger]
            leads_to_file(v.dirs@, v.inodes@, ROOT_INODE, f) && path == below(seq!['/'], f);
        lemma_led_are_names(v, ROOT_INODE, found);
        lemma_below_is_rendered(none, found);
        assert(none + found =~= found);
        lemma_parts_of_render(true, found);
        assert(found == names);
    }
}

proof fn lemma_led_are_names(v: &Ext4Names, from: u32, names: Seq<Seq<char>>)
    requires
        leads_to_file(v.dirs@, v.inodes@, from, names),
        forall|k: u128, name: Seq<char>|
            v.dirs@.contains_key(k) && #[trigger] v.dirs@[k]@.contains_key(name) ==> is_plain(name)
                && !name.contains('/'),
    ensures
        all_names(names),
    decreases names.len(),
{
    if names.len() > 1 {
        let rest = names.drop_first();
        lemma_led_are_names(v, v.dirs@[from as u128]@[names[0]].ino, rest);
        assert forall|i: int| 0 <= i < names.len() implies is_plain(#[trigger] names[i])
            && !names[i].contains('/') by {
            if i > 0 {
                assert(rest[i - 1] == names[i]);
            }
        }
    }
}

} // verus!
