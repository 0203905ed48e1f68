//! The data of the in-memory file system and the steps that its operations
//! are made of.
use vstd::prelude::*;

use crate::fs::content::MemFileContent;
use crate::fs::memfs::model::{
    before_piece, nonempty, without_file, without_text, BackingModel, FileModel, MemFsModel,
};
use crate::fs::node::{FileTimes, MemNodeMetadata, MemSpecialKind};
use crate::fs::path::{
    file_name, is_descendant, join, last_piece, normalize_path, parent_path, split, split_slash,
};
use crate::intmap::IntMap;
use crate::task::{Credentials, Timestamp};
use crate::text::{str_eq, texts};
use crate::textmap::{
    is_moved, listing, listing_of_map, moved_keys, moved_path, moves, rename_prefix, Snapshot,
    TextMap,
};

verus! {

/// The contents and times that one or more names stand for.
pub struct MemFileBacking {
    pub content: MemFileContent,
    pub times: FileTimes,
}

/// A name of a file.
pub struct MemFile {
    pub name: String,
    pub backing: usize,
    pub link_key: String,
}

/// An in-memory file system.
pub struct MemFileSystem {
    pub files: Vec<MemFile>,
    pub backings: Vec<MemFileBacking>,
    pub dirs: Vec<String>,
    pub symlinks: TextMap<String>,
    pub specials: TextMap<MemSpecialKind>,
    pub metadata: TextMap<MemNodeMetadata>,
    pub xattrs: IntMap<TextMap<Vec<u8>>>,
    pub next_ino: u64,
}

impl View for MemFileBacking {
    type V = BackingModel;

    open spec fn view(&self) -> BackingModel {
        BackingModel { content: self.content@, times: self.times }
    }
}

impl View for MemFile {
    type V = FileModel;

    open spec fn view(&self) -> FileModel {
        FileModel {
            name: self.name@,
            backing: self.backing as int,
            link_key: self.link_key@,
        }
    }
}

impl View for MemFileSystem {
    type V = MemFsModel;

    open spec fn view(&self) -> MemFsModel {
        MemFsModel {
            files: self.files@.map_values(|f: MemFile| f@),
            backings: self.backings@.map_values(|b: MemFileBacking| b@),
            dirs: texts(self.dirs@),
            symlinks: self.symlinks@.map_values(|s: String| s@),
            specials: self.specials@,
            metadata: self.metadata@,
            xattrs: Map::new(
                |ino: u64| self.xattrs@.contains_key(ino as u128),
                |ino: u64| self.xattrs@[ino as u128]@.map_values(|v: Vec<u8>| v@),
            ),
            next_ino: self.next_ino,
        }
    }
}

impl Snapshot for MemSpecialKind {
    fn snapshot(&self) -> (r: Self) {
        *self
    }
}

impl Snapshot for MemNodeMetadata {
    fn snapshot(&self) -> (r: Self) {
        *self
    }
}

/// The tables are in order and every file stands for contents that exist.
pub open spec fn backings_exist(m: MemFsModel) -> bool {
    forall|i: int|
        0 <= i < m.files.len() ==> 0 <= (#[trigger] m.files[i]).backing < m.backings.len()
}

/// Leaving out files of a name leaves only files that were there.
pub proof fn lemma_without_file(files: Seq<FileModel>, name: Seq<char>)
    ensures
        forall|i: int|
            0 <= i < without_file(files, name).len() ==> (#[trigger] without_file(
                files,
                name,
            )[i]).name != name && files.contains(without_file(files, name)[i]),
        without_file(files, name).len() <= files.len(),
        (without_file(files, name).len() == files.len()) <==> (forall|i: int|
            0 <= i < files.len() ==> (#[trigger] files[i]).name != name),
    decreases files.len(),
{
    if files.len() > 0 {
        let front = files.drop_last();
        lemma_without_file(front, name);
        let w = without_file(files, name);
        assert(files[files.len() - 1] == files.last());
        assert forall|i: int| 0 <= i < w.len() implies (#[trigger] w[i]).name != name
            && files.contains(w[i]) by {
            let wf = without_file(front, name);
            if i < wf.len() {
                assert(w[i] == wf[i]);
                assert(front.contains(wf[i]));
                let j = choose|j: int| 0 <= j < front.len() && front[j] == wf[i];
                assert(files[j] == w[i]);
            }
        }
        if without_file(front, name).len() == front.len() && files.last().name != name {
            assert forall|i: int| 0 <= i < files.len() implies (#[trigger] files[i]).name != name by {
                if i < front.len() {
                    assert(front[i] == files[i]);
                }
            }
        }
        if forall|i: int| 0 <= i < files.len() ==> (#[trigger] files[i]).name != name {
            assert forall|i: int| 0 <= i < front.len() implies (#[trigger] front[i]).name != name by {
                assert(front[i] == files[i]);
            }
        }
    }
}

impl MemFileBacking {
    /// The contents have a proper form.
    pub open spec fn wf(&self) -> bool {
        self.content.wf()
    }
}

impl MemFileSystem {
    /// The tables are in order, the contents have a proper form, and every file
    /// stands for contents that exist.
    pub open spec fn wf(&self) -> bool {
        &&& self.symlinks.wf()
        &&& self.specials.wf()
        &&& self.metadata.wf()
        &&& self.xattrs.wf()
        &&& forall|k: u128| #[trigger] self.xattrs@.contains_key(k) ==> self.xattrs@[k].wf()
        &&& forall|i: int| 0 <= i < self.backings@.len() ==> (#[trigger] self.backings@[i]).wf()
        &&& backings_exist(self@)
    }

    /// Every file stands for contents that exist.
    pub proof fn files_have_contents(&self)
        requires
            self.wf(),
        ensures
            backings_exist(self@),
    {
    }

    /// A system with one root directory.
    pub fn new() -> (r: Self)
        ensures
            r.wf(),
            r@ == MemFsModel::initial(),
    {
        let mut metadata: TextMap<MemNodeMetadata> = TextMap::new();
        metadata.insert("/".to_owned(), MemNodeMetadata::new_with_ino(0o755, 1));
        let mut dirs: Vec<String> = Vec::new();
        dirs.push("/".to_owned());
        let r = MemFileSystem {
            files: Vec::new(),
            backings: Vec::new(),
            dirs,
            symlinks: TextMap::new(),
            specials: TextMap::new(),
            metadata,
            xattrs: IntMap::new(),
            next_ino: 2,
        };
        proof {
            reveal_strlit("/");
            assert("/"@ =~= seq!['/']);
            let m = MemFsModel::initial();
            assert(r@.files =~= m.files);
            assert(r@.backings =~= m.backings);
            assert(r@.dirs =~= m.dirs);
            assert(r@.symlinks =~= m.symlinks);
            assert(r@.xattrs =~= m.xattrs);
            assert(r@ =~= m);
        }
        r
    }

    /// The place of the first file of a name.
    pub(crate) fn find_file(&self, name: &str) -> (r: Option<usize>)
        ensures
            match r {
                Some(i) => self@.file_index(name@) == Some(i as int) && i < self@.files.len()
                    && self@.files[i as int].name == name@ && self@.first_file(name@, i as int)
                    && i < self.files@.len() && self.files@[i as int]@ == self@.files[i as int],
                None => self@.file_index(name@) is None,
            },
    {
        let mut i: usize = 0;
        while i < self.files.len()
            invariant
                0 <= i <= self.files@.len(),
                self.files@.len() == self@.files.len(),
                forall|j: int| 0 <= j < i ==> (#[trigger] self@.files[j]).name != name@,
            decreases self.files@.len() - i,
        {
            assert(self@.files[i as int] == self.files@[i as int]@);
            if str_eq(self.files[i].name.as_str(), name) {
                assert(self@.first_file(name@, i as int));
                proof {
                    let c = choose|c: int| self@.first_file(name@, c);
                    assert(self@.first_file(name@, c));
                    if c < i {
                        assert(self@.files[c].name != name@);
                    } else if i < c {
                        assert(self@.files[i as int].name != name@);
                    }
                }
                return Some(i);
            }
            i = i + 1;
        }
        None
    }

    /// Whether a name, in normal form, is a directory.
    pub(crate) fn holds_dir(&self, name: &str) -> (r: bool)
        ensures
            r == self@.has_dir(name@),
    {
        let mut i: usize = 0;
        while i < self.dirs.len()
            invariant
                0 <= i <= self.dirs@.len(),
                self.dirs@.len() == self@.dirs.len(),
                forall|j: int| 0 <= j < i ==> #[trigger] self@.dirs[j] != name@,
            decreases self.dirs@.len() - i,
        {
            assert(self@.dirs[i as int] == self.dirs@[i as int]@);
            if str_eq(self.dirs[i].as_str(), name) {
                return true;
            }
            i = i + 1;
        }
        false
    }

    /// Whether anything has a name, in normal form.
    pub(crate) fn holds_node(&self, name: &str) -> (r: bool)
        requires
            self.wf(),
        ensures
            r == self@.has_node(name@),
    {
        self.find_file(name).is_some() || self.holds_dir(name) || self.symlinks.contains_key(name)
            || self.specials.contains_key(name)
    }

    /// Gives out an inode number where there is none.
    pub(crate) fn allocate_metadata(&mut self, metadata: MemNodeMetadata) -> (r: MemNodeMetadata)
        requires
            old(self).wf(),
        ensures
            final(self).wf(),
            r == old(self)@.allocated(metadata),
            final(self)@ == old(self)@.after_alloc(metadata),
    {
        if metadata.ino == 0 {
            let ino: u64 = self.next_ino;
            let next: u64 = if ino == u64::MAX {
                ino
            } else if ino < 1 {
                2
            } else {
                ino + 1
            };
            let ghost before = self@;
            self.next_ino = next;
            assert(self@.files =~= before.files);
            MemNodeMetadata { ino, ..metadata }
        } else {
            metadata
        }
    }

    /// Records something of a name.
    pub(crate) fn put_meta(&mut self, name: &str, metadata: MemNodeMetadata)
        requires
            old(self).wf(),
        ensures
            final(self).wf(),
            final(self)@ == old(self)@.with_meta(name@, metadata),
    {
        let ghost before = self@;
        self.metadata.insert(name.to_owned(), metadata);
        assert(self@.files =~= before.files);
    }

    /// Records something new of a name.
    pub(crate) fn insert_new_metadata(&mut self, name: &str, metadata: MemNodeMetadata)
        requires
            old(self).wf(),
        ensures
            final(self).wf(),
            final(self)@ == old(self)@.with_new_meta(name@, metadata),
    {
        let metadata = self.allocate_metadata(metadata);
        self.put_meta(name, metadata);
    }

    /// Records something of a name of which nothing is recorded.
    pub(crate) fn ensure_metadata(&mut self, name: &str, metadata: MemNodeMetadata)
        requires
            old(self).wf(),
        ensures
            final(self).wf(),
            final(self)@ == old(self)@.with_some_meta(name@, metadata),
    {
        if !self.metadata.contains_key(name) {
            self.insert_new_metadata(name, metadata);
        }
    }

    /// What is recorded of a name, after recording something if need be.
    pub(crate) fn metadata_or_alloc(&mut self, name: &str, mode: u32) -> (r: MemNodeMetadata)
        requires
            old(self).wf(),
        ensures
            final(self).wf(),
            r == old(self)@.meta_or_new(name@, mode),
            final(self)@ == old(self)@.with_some_meta(name@, MemNodeMetadata::plain(mode)),
    {
        match self.metadata.get(name) {
            Some(metadata) => {
                return *metadata;
            },
            None => {},
        }
        let metadata = self.allocate_metadata(MemNodeMetadata::new(mode));
        self.put_meta(name, metadata);
        metadata
    }

    /// What is recorded of a name, in normal form.
    pub(crate) fn meta_at(&self, name: &str) -> (r: Option<MemNodeMetadata>)
        requires
            self.wf(),
        ensures
            r == self@.meta_of(name@),
    {
        match self.metadata.get(name) {
            Some(metadata) => Some(*metadata),
            None => None,
        }
    }

    /// What a new node of a task gets inside its directory.
    pub(crate) fn child_metadata_for_current(
        &self,
        cred: &Credentials,
        name: &str,
        mode: u32,
        is_dir: bool,
    ) -> (r: MemNodeMetadata)
        requires
            self.wf(),
        ensures
            r == self@.child_meta(cred, name@, mode, is_dir),
    {
        let parent = normalize_path(parent_path(name).as_str());
        MemNodeMetadata::new_child_for_current(cred, self.meta_at(parent.as_str()), mode, is_dir)
    }

    /// Forgets what is recorded of a name.
    pub(crate) fn drop_meta(&mut self, name: &str)
        requires
            old(self).wf(),
        ensures
            final(self).wf(),
            final(self)@ == old(self)@.without_meta(name@),
    {
        let ghost before = self@;
        let _ = self.metadata.remove(name);
        assert(self@.files =~= before.files);
    }

    /// Takes a link away.
    pub(crate) fn drop_symlink(&mut self, name: &str) -> (r: Option<String>)
        requires
            old(self).wf(),
        ensures
            final(self).wf(),
            final(self)@ == old(self)@.without_symlink(name@),
            match r {
                Some(t) => old(self)@.symlinks.contains_key(name@) && t@
                    == old(self)@.symlinks[name@],
                None => !old(self)@.symlinks.contains_key(name@),
            },
    {
        let ghost before = self@;
        let r = self.symlinks.remove(name);
        assert(self@.symlinks =~= before.symlinks.remove(name@));
        assert(self@ =~= before.without_symlink(name@));
        r
    }

    /// Makes a name a link.
    pub(crate) fn put_symlink(&mut self, name: &str, target: &str)
        requires
            old(self).wf(),
        ensures
            final(self).wf(),
            final(self)@ == (MemFsModel {
                symlinks: old(self)@.symlinks.insert(name@, target@),
                ..old(self)@
            }),
    {
        let ghost before = self@;
        self.symlinks.insert(name.to_owned(), target.to_owned());
        assert(self@.symlinks =~= before.symlinks.insert(name@, target@));
    }

    /// Takes a special node away.
    pub(crate) fn drop_special(&mut self, name: &str) -> (r: Option<MemSpecialKind>)
        requires
            old(self).wf(),
        ensures
            final(self).wf(),
            final(self)@ == old(self)@.without_special(name@),
            match r {
                Some(k) => old(self)@.specials.contains_key(name@) && k
                    == old(self)@.specials[name@],
                None => !old(self)@.specials.contains_key(name@),
            },
    {
        let ghost before = self@;
        let r = self.specials.remove(name);
        assert(self@.files =~= before.files);
        r
    }

    /// Makes a name a special node.
    pub(crate) fn put_special(&mut self, name: &str, kind: MemSpecialKind)
        requires
            old(self).wf(),
        ensures
            final(self).wf(),
            final(self)@ == (MemFsModel {
                specials: old(self)@.specials.insert(name@, kind),
                ..old(self)@
            }),
    {
        let ghost before = self@;
        self.specials.insert(name.to_owned(), kind);
        assert(self@.files =~= before.files);
    }

    /// Takes all files of a name away.
    pub(crate) fn drop_files(&mut self, name: &str) -> (removed: bool)
        requires
            old(self).wf(),
        ensures
            final(self).wf(),
            final(self)@ == old(self)@.without_files(name@),
            removed == (old(self)@.file_index(name@) is Some),
    {
        let ghost before = self@;
        let ghost start = self.files@;
        let removed = self.find_file(name).is_some();
        let mut i: usize = 0;
        let ghost mut seen: int = 0;
        while i < self.files.len()
            invariant
                0 <= i <= self.files@.len(),
                0 <= seen <= start.len(),
                self.files@.len() - i == start.len() - seen,
                before.files == start.map_values(|f: MemFile| f@),
                self.files@.skip(i as int) == start.skip(seen),
                self.files@.take(i as int).map_values(|f: MemFile| f@) == without_file(
                    before.files.take(seen),
                    name@,
                ),
                self.dirs == old(self).dirs,
                self.backings == old(self).backings,
                self.symlinks == old(self).symlinks,
                self.specials == old(self).specials,
                self.metadata == old(self).metadata,
                self.xattrs == old(self).xattrs,
                self.next_ino == old(self).next_ino,
            decreases self.files@.len() - i,
        {
            proof {
                let next = before.files.take(seen + 1);
                assert(next.drop_last() =~= before.files.take(seen));
                assert(self.files@.skip(i as int)[0] == self.files@[i as int]);
                assert(start.skip(seen)[0] == start[seen]);
                assert(next.last() == self.files@[i as int]@);
            }
            let ghost now = self.files@;
            if str_eq(self.files[i].name.as_str(), name) {
                let _ = self.files.remove(i);
                proof {
                    assert(self.files@.take(i as int) =~= now.take(i as int));
                    assert(self.files@.skip(i as int) =~= now.skip(i as int).drop_first());
                    assert(start.skip(seen).drop_first() =~= start.skip(seen + 1));
                    seen = seen + 1;
                }
            } else {
                i = i + 1;
                proof {
                    assert(self.files@.take(i as int).map_values(|f: MemFile| f@)
                        =~= now.take(i - 1).map_values(|f: MemFile| f@).push(now[i - 1]@));
                    assert(self.files@.skip(i as int) =~= now.skip(i - 1).drop_first());
                    assert(start.skip(seen).drop_first() =~= start.skip(seen + 1));
                    seen = seen + 1;
                }
            }
        }
        proof {
            assert(before.files.take(seen) =~= before.files);
            assert(self.files@.take(i as int) =~= self.files@);
            assert(self@ =~= before.without_files(name@));
            lemma_without_file(before.files, name@);
            assert forall|k: int| 0 <= k < self@.files.len() implies 0 <= (
            #[trigger] self@.files[k]).backing < self@.backings.len() by {
                let f = without_file(before.files, name@)[k];
                let j = choose|j: int| 0 <= j < before.files.len() && before.files[j] == f;
                assert(0 <= before.files[j].backing < before.backings.len());
            }
        }
        removed
    }

    /// Takes a name away from the directories.
    pub(crate) fn drop_dir_entry(&mut self, name: &str)
        requires
            old(self).wf(),
        ensures
            final(self).wf(),
            final(self)@ == (MemFsModel {
                dirs: without_text(old(self)@.dirs, name@),
                ..old(self)@
            }),
    {
        let ghost before = self@;
        let ghost start = self.dirs@;
        let mut i: usize = 0;
        let ghost mut seen: int = 0;
        while i < self.dirs.len()
            invariant
                0 <= i <= self.dirs@.len(),
                0 <= seen <= start.len(),
                self.dirs@.len() - i == start.len() - seen,
                before.dirs == texts(start),
                self.dirs@.skip(i as int) == start.skip(seen),
                texts(self.dirs@.take(i as int)) == without_text(before.dirs.take(seen), name@),
                self.files == old(self).files,
                self.backings == old(self).backings,
                self.symlinks == old(self).symlinks,
                self.specials == old(self).specials,
                self.metadata == old(self).metadata,
                self.xattrs == old(self).xattrs,
                self.next_ino == old(self).next_ino,
            decreases self.dirs@.len() - i,
        {
            proof {
                let next = before.dirs.take(seen + 1);
                assert(next.drop_last() =~= before.dirs.take(seen));
                assert(self.dirs@.skip(i as int)[0] == self.dirs@[i as int]);
                assert(start.skip(seen)[0] == start[seen]);
                assert(next.last() == self.dirs@[i as int]@);
            }
            let ghost now = self.dirs@;
            if str_eq(self.dirs[i].as_str(), name) {
                let _ = self.dirs.remove(i);
                proof {
                    assert(self.dirs@.take(i as int) =~= now.take(i as int));
                    assert(self.dirs@.skip(i as int) =~= now.skip(i as int).drop_first());
                    assert(start.skip(seen).drop_first() =~= start.skip(seen + 1));
                    seen = seen + 1;
                }
            } else {
                i = i + 1;
                proof {
                    assert(texts(self.dirs@.take(i as int)) =~= texts(now.take(i - 1)).push(
                        now[i - 1]@,
                    ));
                    assert(self.dirs@.skip(i as int) =~= now.skip(i - 1).drop_first());
                    assert(start.skip(seen).drop_first() =~= start.skip(seen + 1));
                    seen = seen + 1;
                }
            }
        }
        proof {
            assert(before.dirs.take(seen) =~= before.dirs);
            assert(self.dirs@.take(i as int) =~= self.dirs@);
            assert(self@.files =~= before.files);
        }
    }

    /// Makes a name a directory.
    pub(crate) fn put_dir_entry(&mut self, name: &str)
        requires
            old(self).wf(),
        ensures
            final(self).wf(),
            final(self)@ == old(self)@.with_dir_entry(name@),
    {
        if !self.holds_dir(name) {
            let ghost before = self@;
            self.dirs.push(name.to_owned());
            assert(self@.dirs =~= before.dirs.push(name@));
            assert(self@.files =~= before.files);
        }
    }

    /// Adds one more name for some contents.
    pub(crate) fn push_link(&mut self, name: &str, backing: usize, link_key: &str)
        requires
            old(self).wf(),
            backing < old(self)@.backings.len(),
        ensures
            final(self).wf(),
            final(self)@ == old(self)@.with_link(name@, backing as int, link_key@),
    {
        let ghost before = self@;
        self.files.push(
            MemFile { name: name.to_owned(), backing, link_key: link_key.to_owned() },
        );
        proof {
            assert(self@.files =~= before.with_link(name@, backing as int, link_key@).files);
            assert(self@ =~= before.with_link(name@, backing as int, link_key@));
        }
    }

    /// Makes a name one file with contents of its own.
    pub(crate) fn put_file(&mut self, name: &str, content: MemFileContent, times: FileTimes)
        requires
            old(self).wf(),
            content.wf(),
        ensures
            final(self).wf(),
            final(self)@ == old(self)@.with_file(name@, content@, times),
    {
        let _ = self.drop_files(name);
        let ghost before = self@;
        let backing: usize = self.backings.len();
        let ghost c = content@;
        self.backings.push(MemFileBacking { content, times });
        proof {
            assert(self@.backings =~= before.backings.push(BackingModel { content: c, times }));
            assert(backings_exist(self@)) by {
                assert forall|i: int| 0 <= i < self@.files.len() implies 0 <= (
                #[trigger] self@.files[i]).backing < self@.backings.len() by {
                    assert(self@.files[i] == before.files[i]);
                }
            }
        }
        self.push_link(name, backing, name);
    }

    /// Adds the directories in front of a path.
    pub(crate) fn ensure_parent_dirs(&mut self, path: &str)
        requires
            old(self).wf(),
        ensures
            final(self).wf(),
            final(self)@ == old(self)@.with_parents(path@),
    {
        let pieces = split_slash(path);
        let last = file_name(path);
        let ghost all = texts(pieces@);
        let ghost before = self@;
        let mut names: Vec<String> = Vec::new();
        let mut current: String = String::new();
        let mut stopped = false;
        let mut i: usize = 0;
        proof {
            assert(all.take(0) =~= Seq::empty());
            assert(texts(names@) =~= Seq::empty());
            assert(nonempty(all.take(0)) =~= Seq::empty());
        }
        while i < pieces.len()
            invariant
                0 <= i <= pieces@.len(),
                all == texts(pieces@),
                all == split(path@),
                last@ == last_piece(all),
                self.wf(),
                self@ == before.with_dirs(texts(names@)),
                texts(names@) == before_piece(nonempty(all.take(i as int)), last@),
                stopped == (texts(names@).len() < nonempty(all.take(i as int)).len()),
                current@ == (if names@.len() == 0 {
                    Seq::<char>::empty()
                } else {
                    seq!['/'] + join(texts(names@))
                }),
            decreases pieces@.len() - i,
        {
            proof {
                let next = all.take(i + 1);
                assert(next.drop_last() =~= all.take(i as int));
                assert(next.last() == pieces@[i as int]@);
                let n = nonempty(next);
                if pieces@[i as int]@.len() > 0 {
                    assert(n.drop_last() =~= nonempty(all.take(i as int)));
                    lemma_before_piece(n.drop_last(), last@);
                }
            }
            let piece: &str = pieces[i].as_str();
            if piece.is_empty() {
            } else if stopped || str_eq(piece, last.as_str()) {
                stopped = true;
            } else {
                let ghost had = texts(names@);
                let ghost was = current@;
                current.push('/');
                current.append(piece);
                names.push(piece.to_owned());
                proof {
                    let now = texts(names@);
                    assert(now =~= had.push(pieces@[i as int]@));
                    assert(now.drop_last() =~= had);
                    assert(current@ =~= seq!['/'] + join(now));
                    assert(now =~= nonempty(all.take(i + 1)));
                }
                self.put_dir_entry(current.as_str());
                self.ensure_metadata(current.as_str(), MemNodeMetadata::new(0o755));
            }
            i = i + 1;
        }
        assert(all.take(i as int) =~= all);
    }

    /// Gives a directory and all below it another name.
    pub(crate) fn move_tree(&mut self, from: &str, to: &str)
        requires
            old(self).wf(),
        ensures
            final(self).wf(),
            final(self)@ == old(self)@.with_tree_moved(from@, to@),
    {
        let ghost before = self@;
        let ghost goal = before.with_tree_moved(from@, to@);
        let ghost first_dirs = self.dirs@;
        let ghost first_files = self.files@;
        let mut i: usize = 0;
        while i < self.dirs.len()
            invariant
                before == old(self)@,
                goal == before.with_tree_moved(from@, to@),
                0 <= i <= self.dirs@.len(),
                self.dirs@.len() == first_dirs.len(),
                before.dirs == texts(first_dirs),
                forall|j: int| i <= j < first_dirs.len() ==> #[trigger] self.dirs@[j] == first_dirs[j],
                forall|j: int| 0 <= j < i ==> (#[trigger] self.dirs@[j])@ == goal.dirs[j],
                self.files == old(self).files,
                self.backings == old(self).backings,
                self.symlinks == old(self).symlinks,
                self.specials == old(self).specials,
                self.metadata == old(self).metadata,
                self.xattrs == old(self).xattrs,
                self.next_ino == old(self).next_ino,
            decreases self.dirs@.len() - i,
        {
            assert(before.dirs[i as int] == self.dirs@[i as int]@);
            if is_moved(from, self.dirs[i].as_str(), true) {
                let path = rename_prefix(from, to, self.dirs[i].as_str());
                self.dirs[i] = path;
            }
            i = i + 1;
        }
        let mut k: usize = 0;
        while k < self.files.len()
            invariant
                before == old(self)@,
                goal == before.with_tree_moved(from@, to@),
                self.dirs@.len() == goal.dirs.len(),
                forall|j: int| 0 <= j < self.dirs@.len() ==> (#[trigger] self.dirs@[j])@ == goal.dirs[j],
                0 <= k <= self.files@.len(),
                self.files@.len() == first_files.len(),
                before.files == first_files.map_values(|f: MemFile| f@),
                forall|j: int|
                    k <= j < first_files.len() ==> #[trigger] self.files@[j] == first_files[j],
                forall|j: int| 0 <= j < k ==> (#[trigger] self.files@[j])@ == goal.files[j],
                self.backings == old(self).backings,
                self.symlinks == old(self).symlinks,
                self.specials == old(self).specials,
                self.metadata == old(self).metadata,
                self.xattrs == old(self).xattrs,
                self.next_ino == old(self).next_ino,
            decreases self.files@.len() - k,
        {
            assert(before.files[k as int] == self.files@[k as int]@);
            if is_descendant(from, self.files[k].name.as_str()) {
                let path = rename_prefix(from, to, self.files[k].name.as_str());
                let backing: usize = self.files[k].backing;
                let link_key = self.files[k].link_key.clone();
                self.files[k] = MemFile { name: path, backing, link_key };
            }
            k = k + 1;
        }
        self.specials.move_keys(from, to, false);
        self.symlinks.move_keys(from, to, false);
        self.metadata.move_keys(from, to, true);
        proof {
            assert(self@.dirs =~= goal.dirs);
            assert(self@.files =~= goal.files);
            let f = |s: String| s@;
            let plain = old(self).symlinks@;
            assert(plain.map_values(f).dom() =~= plain.dom());
            listing_of_map(&old(self).symlinks);
            old(self).symlinks.keys_list_domain();
            lemma_moved_values(plain, listing(plain.dom()), from@, to@, false);
            assert(self@.symlinks =~= goal.symlinks);
            assert forall|j: int| 0 <= j < self@.files.len() implies 0 <= (
            #[trigger] self@.files[j]).backing < self@.backings.len() by {
                assert(self@.files[j].backing == before.files[j].backing);
            }
            assert(self@ =~= goal);
        }
    }

    /// Changes the contents and times that a file stands for.
    pub(crate) fn put_backing(&mut self, i: usize, content: MemFileContent, times: FileTimes)
        requires
            old(self).wf(),
            i < old(self)@.backings.len(),
            content.wf(),
        ensures
            final(self).wf(),
            final(self)@ == (MemFsModel {
                backings: old(self)@.backings.update(
                    i as int,
                    BackingModel { content: content@, times },
                ),
                ..old(self)@
            }),
    {
        let ghost before = self@;
        let ghost c = content@;
        self.backings[i] = MemFileBacking { content, times };
        proof {
            assert(self@.backings =~= before.backings.update(
                i as int,
                BackingModel { content: c, times },
            ));
            assert(self@.files =~= before.files);
        }
    }

    /// Changes the times that a file stands for.
    pub(crate) fn put_times(&mut self, i: usize, times: FileTimes)
        requires
            old(self).wf(),
            i < old(self)@.backings.len(),
        ensures
            final(self).wf(),
            final(self)@ == (MemFsModel {
                backings: old(self)@.backings.update(
                    i as int,
                    BackingModel { times, ..old(self)@.backings[i as int] },
                ),
                ..old(self)@
            }),
    {
        let ghost before = self@;
        let ghost was = self.backings@[i as int];
        self.backings[i].times = times;
        proof {
            assert(was@ == before.backings[i as int]);
            assert(self@.backings =~= before.backings.update(
                i as int,
                BackingModel { times, ..before.backings[i as int] },
            ));
            assert(self@.files =~= before.files);
        }
    }

    /// Records a change of a file, if there is one of the name.
    pub(crate) fn touch_file(&mut self, name: &str, now: Timestamp)
        requires
            old(self).wf(),
        ensures
            final(self).wf(),
            final(self)@ == old(self)@.touched(name@, now),
    {
        match self.find_file(name) {
            Some(i) => {
                let b: usize = self.files[i].backing;
                assert(self@.files[i as int].backing == b);
                let mut times = self.backings[b].times;
                assert(self@.backings[b as int] == self.backings@[b as int]@);
                times.touch_changed(now);
                self.put_times(b, times);
            },
            None => {},
        }
    }
}

proof fn lemma_before_piece(pieces: Seq<Seq<char>>, stop: Seq<char>)
    ensures
        before_piece(pieces, stop).len() <= pieces.len(),
        before_piece(pieces, stop).len() == pieces.len() ==> before_piece(pieces, stop) == pieces,
    decreases pieces.len(),
{
    if pieces.len() > 0 {
        lemma_before_piece(pieces.drop_last(), stop);
    }
}

proof fn lemma_moved_values(
    first: Map<Seq<char>, String>,
    keys: Seq<Seq<char>>,
    from: Seq<char>,
    to: Seq<char>,
    with_self: bool,
)
    requires
        forall|i: int| 0 <= i < keys.len() ==> first.contains_key(#[trigger] keys[i]),
    ensures
        moved_keys(first, keys, from, to, with_self).map_values(|s: String| s@) == moved_keys(
            first.map_values(|s: String| s@),
            keys,
            from,
            to,
            with_self,
        ),
    decreases keys.len(),
{
    let f = |s: String| s@;
    if keys.len() > 0 {
        let front = keys.drop_last();
        assert forall|i: int| 0 <= i < front.len() implies first.contains_key(
            #[trigger] front[i],
        ) by {
            assert(front[i] == keys[i]);
        }
        lemma_moved_values(first, front, from, to, with_self);
        let k = keys.last();
        assert(first.contains_key(keys[keys.len() - 1]));
        if moves(from, k, with_self) {
            let before = moved_keys(first, front, from, to, with_self);
            let path = moved_path(from, to, k);
            assert(before.remove(k).insert(path, first[k]).map_values(f)
                =~= before.map_values(f).remove(k).insert(path, first.map_values(f)[k]));
        }
    }
}

} // verus!
