//! Listings of the tree.
use vstd::prelude::*;

use crate::errno::SysErrNo;
use crate::fs::block_dev::device::RawBlockDevice;
use crate::fs::dirent::{entry_views, DirEntryRecord};
use crate::fs::ext4::listing::{height, listed_at, unread_below};
use crate::fs::ext4::types::Ext4NodeKind;
use crate::fs::ext4::volume::{Fault, Load, ROOT_INODE};
use crate::fs::memfs::model::{DirEntryModel, FileModel};
use crate::fs::path::{normalize_path, normalized};
use crate::fs::vfat::listed_entries;
use crate::fs::vfs::lookup::{piece_path, pieced};
use crate::fs::vfs::tree::Vfs;
use crate::text::{lemma_text_lt_total, text_lt, texts};
use crate::textmap::{listing, listing_is_unique, listing_of_map, lists, TextMap};

verus! {

/// Names, and whether they are directories, of some entries; of equal names
/// the last counts.
pub open spec fn named(entries: Seq<DirEntryModel>) -> Map<Seq<char>, bool>
    decreases entries.len(),
{
    if entries.len() == 0 {
        Map::empty()
    } else {
        named(entries.drop_last()).insert(entries.last().name, entries.last().is_dir)
    }
}

/// The entries of names in order.
pub open spec fn in_order(m: Map<Seq<char>, bool>) -> Seq<DirEntryModel> {
    listing(m.dom()).map_values(|k: Seq<char>| DirEntryModel { name: k, is_dir: m[k] })
}

impl Vfs {
    /// Names of memory with those of a directory of the volume below them: a
    /// name counts that is not there already and has not been taken away.
    pub open spec fn with_volume_names(
        &self,
        above: Map<Seq<char>, bool>,
        dir: Seq<char>,
        below: Seq<(Seq<char>, u32, bool)>,
    ) -> Map<Seq<char>, bool>
        decreases below.len(),
    {
        if below.len() == 0 {
            above
        } else {
            let before = self.with_volume_names(above, dir, below.drop_last());
            let (name, _, is_dir) = below.last();
            if self.removed(pieced(dir, name)) || before.contains_key(name) {
                before
            } else {
                before.insert(name, is_dir)
            }
        }
    }

    /// The entries of a directory of memory and of the volume.
    pub open spec fn merged(
        &self,
        path: Seq<char>,
        mem_dir: bool,
        ext_dir: bool,
    ) -> Result<Seq<DirEntryModel>, Fault> {
        let n = normalized(path);
        let above = if mem_dir {
            named(self.files.mem@.entries(n))
        } else {
            Map::empty()
        };
        if !ext_dir {
            Ok(in_order(above))
        } else {
            match self.files.vol.names.find_spec(n) {
                Err(f) => Err(f),
                Ok((ino, kind)) => if kind != Ext4NodeKind::Directory {
                    Err(Fault::Sys(SysErrNo::ENOTDIR))
                } else {
                    match listed_at(&self.files.vol.names, ino) {
                        Err(f) => Err(f),
                        Ok(below) => Ok(in_order(self.with_volume_names(above, n, below))),
                    }
                },
            }
        }
    }

    /// What a directory holds.
    pub open spec fn listed<D: RawBlockDevice>(&self, dev: &D, path: Seq<char>) -> Result<
        Seq<DirEntryModel>,
        Fault,
    > {
        let n = normalized(path);
        let m = self.files.mem@;
        match self.fat_at(path) {
            Some((volume, range, inner)) => match volume.entries_at(dev, &range, inner) {
                Err(e) => Err(Fault::Sys(e)),
                Ok(entries) => Ok(listed_entries(entries)),
            },
            None => {
                let ext_dir = if self.in_tmpfs(path) {
                    Ok(false)
                } else {
                    self.ext4_dir_at(n)
                };
                match ext_dir {
                    Err(f) => Err(f),
                    Ok(ext_dir) => if m.has_dir(n) || ext_dir {
                        self.merged(path, m.has_dir(n), ext_dir)
                    } else if m.file_index(n) is Some {
                        Err(Fault::Sys(SysErrNo::ENOTDIR))
                    } else {
                        match self.ext4_file_at(n) {
                            Err(f) => Err(f),
                            Ok(b) => Err(
                                Fault::Sys(
                                    if b {
                                        SysErrNo::ENOTDIR
                                    } else {
                                        SysErrNo::ENOENT
                                    },
                                ),
                            ),
                        }
                    },
                }
            },
        }
    }

    fn merge(&self, norm: &str, mem_dir: bool, ext_dir: bool) -> (r: Result<
        Vec<DirEntryRecord>,
        Fault,
    >)
        requires
            self.wf(),
            normalized(norm@) == norm@,
            mem_dir ==> self.files.mem@.has_dir(norm@),
        ensures
            match r {
                Ok(v) => self.merged(norm@, mem_dir, ext_dir) == Ok::<Seq<DirEntryModel>, Fault>(
                    entry_views(v@),
                ),
                Err(f) => self.merged(norm@, mem_dir, ext_dir) == Err::<Seq<DirEntryModel>, Fault>(
                    f,
                ),
            },
    {
        let mut map: TextMap<bool> = TextMap::new();
        if mem_dir {
            match self.files.mem.list_dir(norm) {
                Err(e) => {
                    return Err(Fault::Sys(e));
                },
                Ok(entries) => {
                    let ghost all = entry_views(entries@);
                    let mut i: usize = 0;
                    assert(all.take(0) =~= Seq::<DirEntryModel>::empty());
                    while i < entries.len()
                        invariant
                            map.wf(),
                            0 <= i <= entries@.len(),
                            all == entry_views(entries@),
                            map@ == named(all.take(i as int)),
                        decreases entries@.len() - i,
                    {
                        proof {
                            assert(all.take(i + 1).drop_last() =~= all.take(i as int));
                            assert(all[i as int] == entries@[i as int]@);
                        }
                        map.insert(entries[i].name.clone(), entries[i].is_dir);
                        i = i + 1;
                    }
                    assert(all.take(i as int) =~= all);
                },
            }
        }
        let ghost above = map@;
        if ext_dir {
            match self.files.vol.names.ext4_list_dir(norm) {
                Err(f) => {
                    return Err(f);
                },
                Ok(names) => {
                    let ghost below = listed_at(
                        &self.files.vol.names,
                        self.files.vol.names.find_spec(norm@)->Ok_0.0,
                    )->Ok_0;
                    let mut i: usize = 0;
                    assert(below.take(0) =~= Seq::<(Seq<char>, u32, bool)>::empty());
                    while i < names.len()
                        invariant
                            self.wf(),
                            map.wf(),
                            0 <= i <= names@.len(),
                            names@.len() == below.len(),
                            forall|k: int|
                                0 <= k < below.len() ==> (#[trigger] names@[k]).0@ == below[k].0
                                    && names@[k].1 == below[k].2,
                            map@ == self.with_volume_names(above, norm@, below.take(i as int)),
                        decreases names@.len() - i,
                    {
                        proof {
                            assert(below.take(i + 1).drop_last() =~= below.take(i as int));
                            assert(below.take(i + 1).last() == below[i as int]);
                        }
                        let child = piece_path(norm, names[i].0.as_str());
                        if !self.is_removed(child.as_str()) && !map.contains_key(
                            names[i].0.as_str(),
                        ) {
                            map.insert(names[i].0.clone(), names[i].1);
                        }
                        i = i + 1;
                    }
                    assert(below.take(i as int) =~= below);
                },
            }
        }
        let ghost m = map@;
        let mut out: Vec<DirEntryRecord> = Vec::new();
        let mut i: usize = 0;
        let n: usize = map.len();
        let ghost keys = map.keys();
        proof {
            listing_of_map(&map);
        }
        assert(entry_views(out@) =~= in_order(m).take(0));
        while i < n
            invariant
                map.wf(),
                0 <= i <= n,
                n == keys.len(),
                keys == map.keys(),
                m == map@,
                keys == listing(m.dom()),
                entry_views(out@) == in_order(m).take(i as int),
            decreases n - i,
        {
            let ghost had = entry_views(out@);
            let name: String = map.key_at(i).clone();
            let is_dir: bool = *map.value_at(i);
            out.push(DirEntryRecord { name, is_dir });
            proof {
                assert(in_order(m)[i as int] == DirEntryModel { name: keys[i as int], is_dir });
                assert(entry_views(out@) =~= had.push(in_order(m)[i as int]));
                assert(in_order(m).take(i + 1) =~= in_order(m).take(i as int).push(
                    in_order(m)[i as int],
                ));
            }
            i = i + 1;
        }
        assert(in_order(m).take(i as int) =~= in_order(m));
        Ok(out)
    }

    /// What a directory holds, in the order of the names.
    pub fn list_dir<D: RawBlockDevice>(&self, dev: &D, path: &str) -> (r: Result<
        Vec<DirEntryRecord>,
        Fault,
    >)
        requires
            self.wf(),
        ensures
            match r {
                Ok(v) => self.listed(dev, path@) == Ok::<Seq<DirEntryModel>, Fault>(
                    entry_views(v@),
                ),
                Err(f) => self.listed(dev, path@) == Err::<Seq<DirEntryModel>, Fault>(f),
            },
    {
        match self.mounted_vfat_backend(path) {
            Some((volume, range, inner)) => {
                return match volume.list_dir(dev, range, inner.as_str()) {
                    Ok(entries) => Ok(entries),
                    Err(e) => Err(Fault::Sys(e)),
                };
            },
            None => {},
        }
        let norm = normalize_path(path);
        proof {
            crate::fs::path::normalize_is_idempotent(path@);
        }
        let mem_dir = self.files.mem.is_dir(norm.as_str());
        let ext_dir = if self.is_tmpfs_path(path) {
            false
        } else {
            match self.ext4_has_dir(norm.as_str()) {
                Err(f) => {
                    return Err(f);
                },
                Ok(b) => b,
            }
        };
        if !mem_dir && !ext_dir {
            if self.files.mem.get_file(norm.as_str()).is_some() {
                return Err(Fault::Sys(SysErrNo::ENOTDIR));
            }
            return match self.ext4_has_file(norm.as_str()) {
                Err(f) => Err(f),
                Ok(true) => Err(Fault::Sys(SysErrNo::ENOTDIR)),
                Ok(false) => Err(Fault::Sys(SysErrNo::ENOENT)),
            };
        }
        assert(self.merged(path@, mem_dir, ext_dir) == self.merged(norm@, mem_dir, ext_dir));
        self.merge(norm.as_str(), mem_dir, ext_dir)
    }

    /// The paths that have not been taken away.
    pub open spec fn still_there(&self, paths: Seq<Seq<char>>) -> Seq<Seq<char>>
        decreases paths.len(),
    {
        if paths.len() == 0 {
            paths
        } else if self.removed(paths.last()) {
            self.still_there(paths.drop_last())
        } else {
            self.still_there(paths.drop_last()).push(paths.last())
        }
    }

    /// The paths of all files, in memory and on the volume, that have not been
    /// taken away.
    pub open spec fn files_shown(&self) -> Set<Seq<char>> {
        self.files.mem@.files.map_values(|f: FileModel| f.name).to_set().union(
            self.files.vol.names.all_files(),
        ).filter(|p: Seq<char>| !self.removed(p))
    }

    proof fn lemma_still_there(&self, paths: Seq<Seq<char>>, all: Set<Seq<char>>)
        requires
            lists(paths, all),
        ensures
            lists(self.still_there(paths), all.filter(|p: Seq<char>| !self.removed(p))),
        decreases paths.len(),
    {
        if paths.len() > 0 {
            let front = paths.drop_last();
            let last = paths.last();
            let less = all.remove(last);
            assert forall|k: Seq<char>| less.contains(k) <==> #[trigger] front.contains(k) by {
                if front.contains(k) {
                    let i = choose|i: int| 0 <= i < front.len() && front[i] == k;
                    assert(paths[i] == k);
                    assert(paths.contains(k));
                    assert(text_lt(paths[i], paths[paths.len() - 1]));
                    if k == last {
                        lemma_text_lt_total(last, last);
                    }
                }
                if less.contains(k) {
                    assert(paths.contains(k));
                    let i = choose|i: int| 0 <= i < paths.len() && paths[i] == k;
                    assert(front[i] == k);
                }
            }
            assert(lists(front, less));
            self.lemma_still_there(front, less);
            let kept = self.still_there(front);
            let shown = less.filter(|p: Seq<char>| !self.removed(p));
            let goal = all.filter(|p: Seq<char>| !self.removed(p));
            assert(paths.contains(last)) by {
                assert(paths[paths.len() - 1] == last);
            }
            if self.removed(last) {
                assert(goal =~= shown);
            } else {
                let out = kept.push(last);
                assert forall|i: int, j: int| 0 <= i < j < out.len() implies text_lt(
                    #[trigger] out[i],
                    #[trigger] out[j],
                ) by {
                    if j < kept.len() {
                        assert(text_lt(kept[i], kept[j]));
                    } else {
                        assert(kept.contains(kept[i]));
                        assert(shown.contains(kept[i]));
                        assert(front.contains(kept[i]));
                        let k = choose|k: int| 0 <= k < front.len() && front[k] == kept[i];
                        assert(text_lt(paths[k], paths[paths.len() - 1]));
                    }
                }
                assert forall|k: Seq<char>| goal.contains(k) <==> #[trigger] out.contains(k) by {
                    if goal.contains(k) {
                        if k == last {
                            assert(out[kept.len() as int] == k);
                        } else {
                            assert(shown.contains(k));
                            assert(kept.contains(k));
                            let i = choose|i: int| 0 <= i < kept.len() && kept[i] == k;
                            assert(out[i] == k);
                        }
                    }
                    if out.contains(k) {
                        let i = choose|i: int| 0 <= i < out.len() && out[i] == k;
                        if i < kept.len() {
                            assert(kept[i] == k);
                            assert(kept.contains(k));
                        }
                    }
                }
            }
        }
    }

    /// The paths of all files, in order.
    pub fn list_files(&self) -> (r: Result<Vec<String>, Load>)
        requires
            self.wf(),
            self.files.vol.names.is_tree(ROOT_INODE),
        ensures
            match r {
                Ok(out) => lists(texts(out@), self.files_shown()) && texts(out@) == listing(
                    self.files_shown(),
                ),
                Err(load) => self.files.vol.names.mounted && unread_below(
                    self.files.vol.names.dirs@,
                    self.files.vol.names.inodes@,
                    ROOT_INODE,
                    load,
                    height(
                        self.files.vol.names.dirs@,
                        self.files.vol.names.inodes@,
                        ROOT_INODE,
                    ),
                ),
            },
    {
        let mem_paths = self.files.mem.list_file_names();
        let all = match self.files.vol.names.merged_list_all_file_paths(mem_paths) {
            Err(load) => {
                return Err(load);
            },
            Ok(all) => all,
        };
        let ghost paths = texts(all@);
        let mut out: Vec<String> = Vec::new();
        let mut i: usize = 0;
        assert(paths.take(0) =~= Seq::<Seq<char>>::empty());
        assert(texts(out@) =~= Seq::<Seq<char>>::empty());
        while i < all.len()
            invariant
                self.wf(),
                0 <= i <= all@.len(),
                paths == texts(all@),
                texts(out@) == self.still_there(paths.take(i as int)),
            decreases all@.len() - i,
        {
            proof {
                assert(paths.take(i + 1).drop_last() =~= paths.take(i as int));
                assert(paths.take(i + 1).last() == all@[i as int]@);
            }
            let ghost had = texts(out@);
            if !self.is_removed(all[i].as_str()) {
                out.push(all[i].clone());
                assert(texts(out@) =~= had.push(paths[i as int]));
            }
            i = i + 1;
        }
        assert(paths.take(i as int) =~= paths);
        proof {
            self.lemma_still_there(
                paths,
                self.files.mem@.files.map_values(|f: FileModel| f.name).to_set().union(
                    self.files.vol.names.all_files(),
                ),
            );
            listing_is_unique(texts(out@), listing(self.files_shown()), self.files_shown());
        }
        Ok(out)
    }
}

} // verus!
