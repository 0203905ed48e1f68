//! The operations of the in-memory file system.
use vstd::prelude::*;

use crate::errno::SysErrNo;
use crate::fs::content::{is_elf, read_into, read_len, MemFileContent, MAX_FILE_OFFSET};
use crate::fs::dirent::{entry_views, push_child, sort_entries, DirEntryRecord};
use crate::fs::memfs::model::{
    children, sharers, without_file, BackingModel, FileModel, MemFsModel,
};
use crate::fs::memfs::store::{MemFile, MemFileSystem};
use crate::fs::node::{FileTimes, MemNodeMetadata, MemSpecialKind};
use crate::fs::path::{descends, is_descendant, normalize_path, normalized, parent_path};
use crate::task::Caller;
use crate::text::{str_eq, texts};
use crate::textmap::listing_of_map;

verus! {

/// Whether contents start like an executable image.
pub fn is_elf_content(content: &[u8]) -> (r: bool)
    ensures
        r == is_elf(content@),
{
    let r = content.len() >= 4 && content[0] == 0x7f && content[1] == 0x45 && content[2] == 0x4c
        && content[3] == 0x46;
    proof {
        if content@.len() >= 4 {
            assert(content@.take(4)[0] == content@[0] && content@.take(4)[1] == content@[1]
                && content@.take(4)[2] == content@[2] && content@.take(4)[3] == content@[3]);
            assert(r == (content@.take(4) =~= seq![0x7fu8, 0x45u8, 0x4cu8, 0x46u8]));
        }
    }
    r
}

impl MemFile {
    /// The length of the contents.
    pub fn size(&self, fs: &MemFileSystem) -> (n: usize)
        requires
            fs.wf(),
            self@.backing < fs@.backings.len(),
        ensures
            n == fs@.backings[self@.backing].content.len(),
    {
        assert(fs@.backings[self@.backing] == fs.backings@[self.backing as int]@);
        fs.backings[self.backing].content.len()
    }

    /// Whether the contents start like an executable image.
    pub fn is_elf_image(&self, fs: &MemFileSystem) -> (r: bool)
        requires
            fs.wf(),
            self@.backing < fs@.backings.len(),
        ensures
            r == is_elf(fs@.backings[self@.backing].content),
    {
        assert(fs@.backings[self@.backing] == fs.backings@[self.backing as int]@);
        assert(fs.backings@[self.backing as int].wf());
        fs.backings[self.backing].content.is_elf_image()
    }

    /// The times.
    pub fn times(&self, fs: &MemFileSystem) -> (r: FileTimes)
        requires
            fs.wf(),
            self@.backing < fs@.backings.len(),
        ensures
            r == fs@.backings[self@.backing].times,
    {
        assert(fs@.backings[self@.backing] == fs.backings@[self.backing as int]@);
        fs.backings[self.backing].times
    }

    /// A copy of the contents, and the times.
    pub fn snapshot(&self, fs: &MemFileSystem) -> (r: (MemFileContent, FileTimes))
        requires
            fs.wf(),
            self@.backing < fs@.backings.len(),
        ensures
            r.0.wf(),
            r.0@ == fs@.backings[self@.backing].content,
            r.1 == fs@.backings[self@.backing].times,
    {
        assert(fs@.backings[self@.backing] == fs.backings@[self.backing as int]@);
        assert(fs.backings@[self.backing as int].wf());
        let b = &fs.backings[self.backing];
        (b.content.clone(), b.times)
    }

    /// The bytes of the contents.
    pub fn to_vec(&self, fs: &MemFileSystem) -> (v: Vec<u8>)
        requires
            fs.wf(),
            self@.backing < fs@.backings.len(),
        ensures
            v@ == fs@.backings[self@.backing].content,
    {
        assert(fs@.backings[self@.backing] == fs.backings@[self.backing as int]@);
        assert(fs.backings@[self.backing as int].wf());
        fs.backings[self.backing].content.to_vec()
    }

    /// Reads from the contents.
    pub fn read_at(&self, fs: &MemFileSystem, offset: usize, buf: &mut [u8]) -> (n: usize)
        requires
            fs.wf(),
            self@.backing < fs@.backings.len(),
        ensures
            n == read_len(
                fs@.backings[self@.backing].content.len(),
                offset as nat,
                old(buf)@.len(),
            ),
            final(buf)@ == read_into(
                fs@.backings[self@.backing].content,
                offset as nat,
                old(buf)@,
            ),
    {
        assert(fs@.backings[self@.backing] == fs.backings@[self.backing as int]@);
        assert(fs.backings@[self.backing as int].wf());
        fs.backings[self.backing].content.read_at(offset, buf)
    }
}

impl MemFileSystem {
    /// What a file without a name gets in a directory, with an inode number.
    pub fn tmpfile_metadata_for_current(&mut self, caller: &Caller, dir: &str, mode: u32) -> (r:
        MemNodeMetadata)
        requires
            old(self).wf(),
        ensures
            final(self).wf(),
            ({
                let meta = MemNodeMetadata::child(
                    &caller.cred,
                    old(self)@.meta_of(normalized(dir@)),
                    mode,
                    false,
                );
                &&& r == old(self)@.allocated(meta)
                &&& final(self)@ == old(self)@.after_alloc(meta)
            }),
    {
        let dir = normalize_path(dir);
        let parent = self.meta_at(dir.as_str());
        let metadata = MemNodeMetadata::new_child_for_current(&caller.cred, parent, mode, false);
        self.allocate_metadata(metadata)
    }

    /// Adds a file, in place of one of the same name.
    pub fn add_file(&mut self, caller: &Caller, name: &str, content: Vec<u8>)
        requires
            old(self).wf(),
            content@.len() <= MAX_FILE_OFFSET,
        ensures
            final(self).wf(),
            final(self)@ == old(self)@.add_file(caller, name@, content@),
    {
        let name = normalize_path(name);
        self.ensure_parent_dirs(name.as_str());
        let mode: u32 = if is_elf_content(content.as_slice()) {
            0o777
        } else {
            0o666
        };
        let _ = self.drop_symlink(name.as_str());
        self.put_file(
            name.as_str(),
            MemFileContent::from_slice(content.as_slice()),
            FileTimes::now(caller.now),
        );
        self.insert_new_metadata(
            name.as_str(),
            MemNodeMetadata::new_for_current(&caller.cred, mode),
        );
    }

    /// Adds a file with a mode, in place of one of the same name.
    pub fn add_file_with_mode(&mut self, caller: &Caller, name: &str, content: Vec<u8>, mode: u32)
        requires
            old(self).wf(),
            content@.len() <= MAX_FILE_OFFSET,
        ensures
            final(self).wf(),
            final(self)@ == old(self)@.add_file_with_mode(caller, name@, content@, mode),
    {
        let name = normalize_path(name);
        self.ensure_parent_dirs(name.as_str());
        let _ = self.drop_symlink(name.as_str());
        let _ = self.drop_special(name.as_str());
        self.put_file(
            name.as_str(),
            MemFileContent::from_slice(content.as_slice()),
            FileTimes::now(caller.now),
        );
        let metadata = self.child_metadata_for_current(&caller.cred, name.as_str(), mode, false);
        self.insert_new_metadata(name.as_str(), metadata);
    }

    /// Adds a file of which everything is given, where there is none yet.
    pub fn add_file_with_metadata(
        &mut self,
        name: &str,
        content: MemFileContent,
        times: FileTimes,
        metadata: MemNodeMetadata,
    ) -> (r: Result<(), SysErrNo>)
        requires
            old(self).wf(),
            content.wf(),
        ensures
            final(self).wf(),
            (final(self)@, r) == old(self)@.add_file_with_metadata(
                name@,
                content@,
                times,
                metadata,
            ),
    {
        let name = normalize_path(name);
        if !self.is_dir(parent_path(name.as_str()).as_str()) {
            return Err(SysErrNo::ENOENT);
        }
        if self.holds_node(name.as_str()) {
            return Err(SysErrNo::EEXIST);
        }
        let _ = self.drop_symlink(name.as_str());
        let _ = self.drop_special(name.as_str());
        self.put_file(name.as_str(), content, times);
        self.put_meta(name.as_str(), metadata);
        Ok(())
    }

    /// Replaces the contents and times of a file.
    pub fn write_file_content(
        &mut self,
        name: &str,
        content: MemFileContent,
        times: FileTimes,
    ) -> (r: bool)
        requires
            old(self).wf(),
            content.wf(),
        ensures
            final(self).wf(),
            r == (old(self)@.file_index(normalized(name@)) is Some),
            final(self)@ == (if r {
                old(self)@.with_backing(
                    normalized(name@),
                    BackingModel { content: content@, times },
                )
            } else {
                old(self)@
            }),
    {
        let name = normalize_path(name);
        match self.find_file(name.as_str()) {
            Some(i) => {
                let b: usize = self.files[i].backing;
                assert(self@.files[i as int].backing == b);
                self.put_backing(b, content, times);
                true
            },
            None => false,
        }
    }

    /// Reads from a file.
    pub fn read_file_at(&self, name: &str, offset: usize, buf: &mut [u8]) -> (r: Result<
        usize,
        SysErrNo,
    >)
        requires
            self.wf(),
        ensures
            self@.file_index(normalized(name@)) is None ==> r == Err::<usize, SysErrNo>(
                SysErrNo::ENOENT,
            ) && final(buf)@ == old(buf)@,
            self@.file_index(normalized(name@)) is Some ==> ({
                let content = self@.backing_of(normalized(name@)).content;
                &&& r is Ok
                &&& r->Ok_0 == read_len(content.len(), offset as nat, old(buf)@.len())
                &&& final(buf)@ == read_into(content, offset as nat, old(buf)@)
            }),
    {
        let name = normalize_path(name);
        match self.find_file(name.as_str()) {
            Some(i) => {
                assert(self@.files[i as int].backing < self@.backings.len());
                let n: usize = self.files[i].read_at(self, offset, buf);
                Ok(n)
            },
            None => Err(SysErrNo::ENOENT),
        }
    }

    /// Writes into a file.
    pub fn write_file_at(&mut self, caller: &Caller, name: &str, offset: usize, buf: &[u8]) -> (r:
        Result<usize, SysErrNo>)
        requires
            old(self).wf(),
        ensures
            final(self).wf(),
            (final(self)@, r) == old(self)@.write_file_at(caller, name@, offset as nat, buf@),
    {
        let name = normalize_path(name);
        match self.find_file(name.as_str()) {
            Some(i) => {
                if offset > MAX_FILE_OFFSET || buf.len() > MAX_FILE_OFFSET - offset {
                    return Err(SysErrNo::EFBIG);
                }
                if buf.len() == 0 {
                    return Ok(0);
                }
                let b: usize = self.files[i].backing;
                assert(self@.files[i as int].backing == b);
                assert(self@.backings[b as int] == self.backings@[b as int]@);
                assert(self.backings@[b as int].wf());
                let mut content = self.backings[b].content.clone();
                let mut times = self.backings[b].times;
                let _ = content.write_at(offset, buf);
                times.touch_modified(caller.now);
                self.put_backing(b, content, times);
                Ok(buf.len())
            },
            None => Err(SysErrNo::ENOENT),
        }
    }

    /// Adds a directory.
    pub fn add_dir(&mut self, caller: &Caller, name: &str)
        requires
            old(self).wf(),
        ensures
            final(self).wf(),
            final(self)@ == old(self)@.add_dir(caller, name@),
    {
        let name = normalize_path(name);
        self.ensure_parent_dirs(name.as_str());
        let _ = self.drop_symlink(name.as_str());
        self.put_dir_entry(name.as_str());
        self.ensure_metadata(name.as_str(), MemNodeMetadata::new_for_current(&caller.cred, 0o755));
    }

    /// Adds a directory with a mode, or sets the mode of one that is there.
    pub fn add_dir_with_mode(&mut self, caller: &Caller, name: &str, mode: u32)
        requires
            old(self).wf(),
        ensures
            final(self).wf(),
            final(self)@ == old(self)@.add_dir_with_mode(caller, name@, mode),
    {
        let name = normalize_path(name);
        self.ensure_parent_dirs(name.as_str());
        let _ = self.drop_symlink(name.as_str());
        let _ = self.drop_special(name.as_str());
        if self.holds_dir(name.as_str()) {
            self.ensure_metadata(
                name.as_str(),
                MemNodeMetadata::new_for_current(&caller.cred, 0o755),
            );
            let _ = self.set_mode(caller, name.as_str(), mode);
        } else {
            self.put_dir_entry(name.as_str());
            let metadata = self.child_metadata_for_current(&caller.cred, name.as_str(), mode, true);
            self.insert_new_metadata(name.as_str(), metadata);
        }
    }

    /// Adds a symbolic link, where nothing has the name yet.
    pub fn add_symlink(&mut self, caller: &Caller, name: &str, target: &str) -> (r: Result<
        (),
        SysErrNo,
    >)
        requires
            old(self).wf(),
        ensures
            final(self).wf(),
            (final(self)@, r) == old(self)@.add_symlink(caller, name@, target@),
    {
        let name = normalize_path(name);
        if !self.is_dir(parent_path(name.as_str()).as_str()) {
            return Err(SysErrNo::ENOENT);
        }
        if self.holds_node(name.as_str()) {
            return Err(SysErrNo::EEXIST);
        }
        self.put_symlink(name.as_str(), target);
        let metadata = self.child_metadata_for_current(&caller.cred, name.as_str(), 0o777, false);
        self.insert_new_metadata(name.as_str(), metadata);
        Ok(())
    }

    /// Adds a special node, where nothing has the name yet.
    pub fn add_special_with_mode(
        &mut self,
        caller: &Caller,
        name: &str,
        kind: MemSpecialKind,
        mode: u32,
    ) -> (r: Result<(), SysErrNo>)
        requires
            old(self).wf(),
        ensures
            final(self).wf(),
            (final(self)@, r) == old(self)@.add_special_with_mode(caller, name@, kind, mode),
    {
        let name = normalize_path(name);
        if !self.is_dir(parent_path(name.as_str()).as_str()) {
            return Err(SysErrNo::ENOENT);
        }
        if self.holds_node(name.as_str()) {
            return Err(SysErrNo::EEXIST);
        }
        self.put_special(name.as_str(), kind);
        let metadata = self.child_metadata_for_current(&caller.cred, name.as_str(), mode, false);
        self.insert_new_metadata(name.as_str(), metadata);
        Ok(())
    }

    /// Adds a special node and the directories in front of it.
    pub fn add_overlay_special_with_mode(
        &mut self,
        caller: &Caller,
        name: &str,
        kind: MemSpecialKind,
        mode: u32,
    ) -> (r: Result<(), SysErrNo>)
        requires
            old(self).wf(),
        ensures
            final(self).wf(),
            (final(self)@, r) == old(self)@.with_parents(normalized(name@)).add_special_with_mode(
                caller,
                normalized(name@),
                kind,
                mode,
            ),
    {
        let name = normalize_path(name);
        self.ensure_parent_dirs(name.as_str());
        self.add_special_with_mode(caller, name.as_str(), kind, mode)
    }

    /// The file of a name.
    pub fn get_file(&self, name: &str) -> (r: Option<&MemFile>)
        requires
            self.wf(),
        ensures
            match r {
                Some(f) => self@.file_index(normalized(name@)) is Some && f@
                    == self@.files[self@.file_index(normalized(name@))->0] && f@.backing
                    < self@.backings.len(),
                None => self@.file_index(normalized(name@)) is None,
            },
    {
        let name = normalize_path(name);
        match self.find_file(name.as_str()) {
            Some(i) => {
                assert(self@.files[i as int].backing < self@.backings.len());
                Some(&self.files[i])
            },
            None => None,
        }
    }

    /// The target of a symbolic link.
    pub fn get_symlink(&self, name: &str) -> (r: Option<String>)
        requires
            self.wf(),
        ensures
            match r {
                Some(t) => self@.symlinks.contains_key(normalized(name@)) && t@
                    == self@.symlinks[normalized(name@)],
                None => !self@.symlinks.contains_key(normalized(name@)),
            },
    {
        let name = normalize_path(name);
        match self.symlinks.get(name.as_str()) {
            Some(target) => Some(target.clone()),
            None => None,
        }
    }

    /// What a special node stands for.
    pub fn get_special(&self, name: &str) -> (r: Option<MemSpecialKind>)
        requires
            self.wf(),
        ensures
            match r {
                Some(k) => self@.specials.contains_key(normalized(name@)) && k
                    == self@.specials[normalized(name@)],
                None => !self@.specials.contains_key(normalized(name@)),
            },
    {
        let name = normalize_path(name);
        match self.specials.get(name.as_str()) {
            Some(kind) => Some(*kind),
            None => None,
        }
    }

    /// Whether anything has a name.
    pub fn node_exists(&self, name: &str) -> (r: bool)
        requires
            self.wf(),
        ensures
            r == self@.has_node(normalized(name@)),
    {
        let name = normalize_path(name);
        self.holds_node(name.as_str())
    }

    /// Whether a name is a directory.
    pub fn is_dir(&self, name: &str) -> (r: bool)
        ensures
            r == self@.has_dir(normalized(name@)),
    {
        let name = normalize_path(name);
        self.holds_dir(name.as_str())
    }

    /// Whether a directory, in normal form, has anything below it.
    pub(crate) fn dir_has_entries(&self, name: &str) -> (r: bool)
        requires
            self.wf(),
        ensures
            r == self@.has_entries(name@),
    {
        let mut i: usize = 0;
        while i < self.files.len()
            invariant
                0 <= i <= self.files@.len(),
                self.files@.len() == self@.files.len(),
                forall|j: int| 0 <= j < i ==> !descends(name@, (#[trigger] self@.files[j]).name),
            decreases self.files@.len() - i,
        {
            assert(self@.files[i as int] == self.files@[i as int]@);
            if is_descendant(name, self.files[i].name.as_str()) {
                return true;
            }
            i = i + 1;
        }
        proof {
            self.symlinks.keys_list_domain();
            self.specials.keys_list_domain();
            assert(self@.symlinks.dom() =~= self.symlinks@.dom());
        }
        let mut k: usize = 0;
        while k < self.symlinks.len()
            invariant
                self.symlinks.wf(),
                0 <= k <= self.symlinks.keys().len(),
                self@.symlinks.dom() == self.symlinks@.dom(),
                forall|q: Seq<char>|
                    self.symlinks@.dom().contains(q) <==> #[trigger] self.symlinks.keys().contains(
                        q,
                    ),
                forall|j: int| 0 <= j < k ==> !descends(name@, #[trigger] self.symlinks.keys()[j]),
            decreases self.symlinks.keys().len() - k,
        {
            if is_descendant(name, self.symlinks.key_at(k).as_str()) {
                proof {
                    let q = self.symlinks.keys()[k as int];
                    assert(self.symlinks.keys().contains(q));
                    assert(self@.symlinks.contains_key(q));
                }
                return true;
            }
            k = k + 1;
        }
        assert forall|q: Seq<char>| #[trigger] self@.symlinks.contains_key(q) implies !descends(
            name@,
            q,
        ) by {
            assert(self.symlinks@.dom().contains(q));
            assert(self.symlinks.keys().contains(q));
        }
        let mut s: usize = 0;
        while s < self.specials.len()
            invariant
                self.specials.wf(),
                0 <= s <= self.specials.keys().len(),
                self@.specials == self.specials@,
                forall|q: Seq<char>|
                    self.specials@.dom().contains(q) <==> #[trigger] self.specials.keys().contains(
                        q,
                    ),
                forall|j: int| 0 <= j < s ==> !descends(name@, #[trigger] self.specials.keys()[j]),
            decreases self.specials.keys().len() - s,
        {
            if is_descendant(name, self.specials.key_at(s).as_str()) {
                proof {
                    let q = self.specials.keys()[s as int];
                    assert(self.specials.keys().contains(q));
                    assert(self@.specials.contains_key(q));
                }
                return true;
            }
            s = s + 1;
        }
        assert forall|q: Seq<char>| #[trigger] self@.specials.contains_key(q) implies !descends(
            name@,
            q,
        ) by {
            assert(self.specials@.dom().contains(q));
            assert(self.specials.keys().contains(q));
        }
        let mut d: usize = 0;
        while d < self.dirs.len()
            invariant
                0 <= d <= self.dirs@.len(),
                self.dirs@.len() == self@.dirs.len(),
                forall|j: int|
                    0 <= j < d ==> !(#[trigger] self@.dirs[j] != name@ && descends(
                        name@,
                        self@.dirs[j],
                    )),
            decreases self.dirs@.len() - d,
        {
            assert(self@.dirs[d as int] == self.dirs@[d as int]@);
            if !str_eq(self.dirs[d].as_str(), name) && is_descendant(name, self.dirs[d].as_str()) {
                return true;
            }
            d = d + 1;
        }
        false
    }

    /// What is recorded of a name.
    pub fn metadata(&self, name: &str) -> (r: Option<MemNodeMetadata>)
        requires
            self.wf(),
        ensures
            r == self@.meta_of(normalized(name@)),
    {
        let name = normalize_path(name);
        self.meta_at(name.as_str())
    }

    /// The inode number of a name.
    pub fn inode(&self, name: &str) -> (r: Option<u64>)
        requires
            self.wf(),
        ensures
            r == (match self@.meta_of(normalized(name@)) {
                Some(meta) => if meta.ino != 0 {
                    Some(meta.ino)
                } else {
                    None
                },
                None => None,
            }),
    {
        match self.metadata(name) {
            Some(meta) => if meta.ino != 0 {
                Some(meta.ino)
            } else {
                None
            },
            None => None,
        }
    }

    /// The flags of a name.
    pub fn file_flags(&self, name: &str) -> (r: Option<u32>)
        requires
            self.wf(),
        ensures
            r == (match self@.meta_of(normalized(name@)) {
                Some(meta) => Some(meta.flags),
                None => None,
            }),
    {
        match self.metadata(name) {
            Some(meta) => Some(meta.flags),
            None => None,
        }
    }

    /// How many names the contents of a file have; one for what is no file.
    pub fn file_link_count(&self, name: &str) -> (r: u32)
        ensures
            r == ({
                let i = self@.file_index(normalized(name@));
                let n = if i is Some {
                    sharers(self@.files, self@.files[i->0].backing)
                } else {
                    1
                };
                if n < 1 {
                    1
                } else if n > u32::MAX {
                    u32::MAX as nat
                } else {
                    n
                }
            }),
    {
        let name = normalize_path(name);
        match self.find_file(name.as_str()) {
            Some(i) => {
                let backing: usize = self.files[i].backing;
                assert(self@.files[i as int].backing == backing);
                let mut n: usize = 0;
                let mut k: usize = 0;
                assert(self@.files.take(0) =~= Seq::empty());
                while k < self.files.len()
                    invariant
                        0 <= k <= self.files@.len(),
                        self.files@.len() == self@.files.len(),
                        n <= k,
                        n == sharers(self@.files.take(k as int), backing as int),
                    decreases self.files@.len() - k,
                {
                    proof {
                        let next = self@.files.take(k + 1);
                        assert(next.drop_last() =~= self@.files.take(k as int));
                        assert(next.last() == self.files@[k as int]@);
                    }
                    if self.files[k].backing == backing {
                        n = n + 1;
                    }
                    k = k + 1;
                }
                assert(self@.files.take(k as int) =~= self@.files);
                if n < 1 {
                    1
                } else if n > 0xffff_ffff {
                    0xffff_ffff
                } else {
                    n as u32
                }
            },
            None => 1,
        }
    }

    /// The key shared by all names of a file: that of the first of them.
    pub fn file_link_key(&self, name: &str) -> (r: Option<String>)
        requires
            self.wf(),
        ensures
            match r {
                Some(key) => self@.file_index(normalized(name@)) is Some && exists|k: int|
                    {
                        &&& 0 <= k < self@.files.len()
                        &&& (#[trigger] self@.files[k]).link_key == key@
                        &&& self@.files[k].backing == self@.files[self@.file_index(
                            normalized(name@),
                        )->0].backing
                        &&& forall|j: int|
                            0 <= j < k ==> (#[trigger] self@.files[j]).backing
                                != self@.files[k].backing
                    },
                None => self@.file_index(normalized(name@)) is None,
            },
    {
        let name = normalize_path(name);
        match self.find_file(name.as_str()) {
            Some(i) => {
                let backing: usize = self.files[i].backing;
                assert(self@.files[i as int].backing == backing);
                let mut k: usize = 0;
                while k < i && self.files[k].backing != backing
                    invariant
                        0 <= k <= i < self.files@.len(),
                        self.files@.len() == self@.files.len(),
                        forall|j: int| 0 <= j < k ==> (#[trigger] self@.files[j]).backing != backing,
                    decreases i - k,
                {
                    assert(self@.files[k as int] == self.files@[k as int]@);
                    k = k + 1;
                }
                assert(self@.files[k as int] == self.files@[k as int]@);
                assert(self@.files[i as int] == self.files@[i as int]@);
                Some(self.files[k].link_key.clone())
            },
            None => None,
        }
    }

    /// The names of all files.
    pub fn list_file_names(&self) -> (r: Vec<String>)
        ensures
            texts(r@) == self@.files.map_values(|f: FileModel| f.name),
    {
        let mut r: Vec<String> = Vec::new();
        let mut i: usize = 0;
        let ghost names = self@.files.map_values(|f: FileModel| f.name);
        while i < self.files.len()
            invariant
                0 <= i <= self.files@.len(),
                names == self@.files.map_values(|f: FileModel| f.name),
                self.files@.len() == self@.files.len(),
                texts(r@) == names.take(i as int),
            decreases self.files@.len() - i,
        {
            let ghost before = texts(r@);
            assert(self@.files[i as int] == self.files@[i as int]@);
            r.push(self.files[i].name.clone());
            assert(texts(r@) =~= before.push(self.files@[i as int].name@));
            assert(names.take(i + 1) =~= names.take(i as int).push(names[i as int]));
            i = i + 1;
        }
        assert(names.take(i as int) =~= names);
        r
    }

    /// The names of all files.
    pub fn list_files(&self) -> (r: Vec<&str>)
        ensures
            r@.len() == self@.files.len(),
            forall|i: int| 0 <= i < r@.len() ==> (#[trigger] r@[i])@ == self@.files[i].name,
    {
        let mut r: Vec<&str> = Vec::new();
        let mut i: usize = 0;
        while i < self.files.len()
            invariant
                0 <= i <= self.files@.len(),
                self.files@.len() == self@.files.len(),
                r@.len() == i,
                forall|j: int| 0 <= j < i ==> (#[trigger] r@[j])@ == self@.files[j].name,
            decreases self.files@.len() - i,
        {
            assert(self@.files[i as int] == self.files@[i as int]@);
            r.push(self.files[i].name.as_str());
            i = i + 1;
        }
        r
    }

    /// How many nodes there are.
    pub fn entry_count(&self) -> (n: usize)
        requires
            self.wf(),
        ensures
            n == ({
                let total = self@.files.len() + self@.dirs.len() + self@.symlinks.dom().len()
                    + self@.specials.dom().len();
                if total > usize::MAX {
                    usize::MAX as nat
                } else {
                    total
                }
            }),
    {
        assert(self@.symlinks.dom() =~= self.symlinks@.dom());
        self.files.len().saturating_add(self.dirs.len()).saturating_add(
            self.symlinks.len(),
        ).saturating_add(self.specials.len())
    }

    /// The entries of a directory in the order of their names.
    pub fn list_dir(&self, dir: &str) -> (r: Result<Vec<DirEntryRecord>, SysErrNo>)
        requires
            self.wf(),
        ensures
            match r {
                Ok(v) => self@.has_dir(normalized(dir@)) && entry_views(v@) == self@.entries(
                    normalized(dir@),
                ),
                Err(e) => !self@.has_dir(normalized(dir@)) && e == SysErrNo::ENOTDIR,
            },
    {
        let dir = normalize_path(dir);
        if !self.holds_dir(dir.as_str()) {
            return Err(SysErrNo::ENOTDIR);
        }
        let mut entries: Vec<DirEntryRecord> = Vec::new();
        let ghost names = self@.files.map_values(|f: FileModel| f.name);
        let ghost links = self.symlinks.keys();
        let ghost nodes = self.specials.keys();
        proof {
            listing_of_map(&self.symlinks);
            listing_of_map(&self.specials);
            assert(self@.symlinks.dom() =~= self.symlinks@.dom());
            assert(entry_views(entries@) =~= children(dir@, self@.dirs.take(0), true));
        }
        let mut i: usize = 0;
        while i < self.dirs.len()
            invariant
                0 <= i <= self.dirs@.len(),
                self.dirs@.len() == self@.dirs.len(),
                entry_views(entries@) == children(dir@, self@.dirs.take(i as int), true),
            decreases self.dirs@.len() - i,
        {
            proof {
                let next = self@.dirs.take(i + 1);
                assert(next.drop_last() =~= self@.dirs.take(i as int));
                assert(next.last() == self.dirs@[i as int]@);
            }
            push_child(&mut entries, dir.as_str(), self.dirs[i].as_str(), true);
            i = i + 1;
        }
        let ghost part1 = children(dir@, self@.dirs, true);
        proof {
            assert(self@.dirs.take(i as int) =~= self@.dirs);
            assert(part1 + children(dir@, names.take(0), false) =~= part1);
        }
        let mut f: usize = 0;
        while f < self.files.len()
            invariant
                0 <= f <= self.files@.len(),
                self.files@.len() == self@.files.len(),
                names == self@.files.map_values(|f: FileModel| f.name),
                entry_views(entries@) == part1 + children(dir@, names.take(f as int), false),
            decreases self.files@.len() - f,
        {
            proof {
                let next = names.take(f + 1);
                assert(next.drop_last() =~= names.take(f as int));
                assert(self@.files[f as int] == self.files@[f as int]@);
                assert(next.last() == self.files@[f as int].name@);
            }
            push_child(&mut entries, dir.as_str(), self.files[f].name.as_str(), false);
            f = f + 1;
            assert(entry_views(entries@) =~= part1 + children(dir@, names.take(f as int), false));
        }
        let ghost part2 = part1 + children(dir@, names, false);
        proof {
            assert(names.take(f as int) =~= names);
            assert(part2 + children(dir@, links.take(0), false) =~= part2);
        }
        let mut k: usize = 0;
        while k < self.symlinks.len()
            invariant
                self.symlinks.wf(),
                links == self.symlinks.keys(),
                0 <= k <= links.len(),
                entry_views(entries@) == part2 + children(dir@, links.take(k as int), false),
            decreases links.len() - k,
        {
            proof {
                let next = links.take(k + 1);
                assert(next.drop_last() =~= links.take(k as int));
            }
            push_child(&mut entries, dir.as_str(), self.symlinks.key_at(k).as_str(), false);
            k = k + 1;
            assert(entry_views(entries@) =~= part2 + children(dir@, links.take(k as int), false));
        }
        let ghost part3 = part2 + children(dir@, links, false);
        proof {
            assert(links.take(k as int) =~= links);
            assert(part3 + children(dir@, nodes.take(0), false) =~= part3);
        }
        let mut s: usize = 0;
        while s < self.specials.len()
            invariant
                self.specials.wf(),
                nodes == self.specials.keys(),
                0 <= s <= nodes.len(),
                entry_views(entries@) == part3 + children(dir@, nodes.take(s as int), false),
            decreases nodes.len() - s,
        {
            proof {
                let next = nodes.take(s + 1);
                assert(next.drop_last() =~= nodes.take(s as int));
            }
            push_child(&mut entries, dir.as_str(), self.specials.key_at(s).as_str(), false);
            s = s + 1;
            assert(entry_views(entries@) =~= part3 + children(dir@, nodes.take(s as int), false));
        }
        assert(nodes.take(s as int) =~= nodes);
        Ok(sort_entries(entries))
    }

    /// Removes a file, link or special node.
    pub fn remove_file(&mut self, name: &str) -> (r: Result<(), SysErrNo>)
        requires
            old(self).wf(),
        ensures
            final(self).wf(),
            (final(self)@, r) == old(self)@.remove_file(name@),
    {
        let ghost before = self@;
        let name = normalize_path(name);
        let removed_file = self.drop_files(name.as_str());
        let removed_link = self.drop_symlink(name.as_str()).is_some();
        let removed_special = self.drop_special(name.as_str()).is_some();
        if !removed_file && !removed_link && !removed_special {
            proof {
                lemma_unchanged_without(before, name@);
                assert(self@ =~= before);
            }
            return Err(SysErrNo::ENOENT);
        }
        self.drop_meta(name.as_str());
        Ok(())
    }

    /// Removes an empty directory.
    pub fn remove_dir(&mut self, name: &str) -> (r: Result<(), SysErrNo>)
        requires
            old(self).wf(),
        ensures
            final(self).wf(),
            (final(self)@, r) == old(self)@.remove_dir(name@),
    {
        proof {
            reveal_strlit("/");
            assert("/"@ =~= seq!['/']);
        }
        let name = normalize_path(name);
        if str_eq(name.as_str(), "/") {
            return Err(SysErrNo::EINVAL);
        }
        if !self.holds_dir(name.as_str()) {
            return Err(SysErrNo::ENOENT);
        }
        if self.dir_has_entries(name.as_str()) {
            return Err(SysErrNo::ENOTEMPTY);
        }
        self.drop_dir_entry(name.as_str());
        self.drop_meta(name.as_str());
        Ok(())
    }

    fn rename_node(&mut self, from: &str, to: &str) -> (r: Result<(), SysErrNo>)
        requires
            old(self).wf(),
        ensures
            final(self).wf(),
            (final(self)@, r) == old(self)@.rename_node(from@, to@),
    {
        let ghost before = self@;
        let special: Option<MemSpecialKind> = match self.specials.get(from) {
            Some(kind) => Some(*kind),
            None => None,
        };
        match special {
            Some(kind) => {
                if self.holds_dir(to) {
                    return Err(SysErrNo::EISDIR);
                }
                let _ = self.drop_special(from);
                let _ = self.drop_files(to);
                let _ = self.drop_symlink(to);
                let _ = self.drop_special(to);
                let metadata = self.metadata_or_alloc(from, 0o666);
                self.drop_meta(from);
                self.put_special(to, kind);
                self.put_meta(to, metadata);
                return Ok(());
            },
            None => {},
        }
        let link: Option<String> = match self.symlinks.get(from) {
            Some(target) => Some(target.clone()),
            None => None,
        };
        match link {
            Some(target) => {
                if self.holds_dir(to) {
                    return Err(SysErrNo::EISDIR);
                }
                let _ = self.drop_symlink(from);
                let _ = self.drop_files(to);
                let _ = self.drop_symlink(to);
                let metadata = self.metadata_or_alloc(from, 0o777);
                self.drop_meta(from);
                self.put_symlink(to, target.as_str());
                self.put_meta(to, metadata);
                return Ok(());
            },
            None => {},
        }
        match self.find_file(from) {
            Some(i) => {
                let backing: usize = self.files[i].backing;
                let link_key = self.files[i].link_key.clone();
                assert(self@.files[i as int] == self.files@[i as int]@);
                assert(self@.files[i as int].backing < self@.backings.len());
                if self.holds_dir(to) {
                    return Err(SysErrNo::EISDIR);
                }
                let metadata = self.metadata_or_alloc(from, 0o666);
                let _ = self.drop_files(from);
                let _ = self.drop_files(to);
                let _ = self.drop_symlink(to);
                let _ = self.drop_special(to);
                self.push_link(to, backing, link_key.as_str());
                self.drop_meta(from);
                self.put_meta(to, metadata);
                Ok(())
            },
            None => Err(SysErrNo::ENOENT),
        }
    }

    /// Gives a node another name, in place of what may give way there.
    pub fn rename_path(&mut self, old_path: &str, new_path: &str) -> (r: Result<(), SysErrNo>)
        requires
            old(self).wf(),
        ensures
            final(self).wf(),
            (final(self)@, r) == old(self)@.rename(old_path@, new_path@),
    {
        proof {
            reveal_strlit("/");
            assert("/"@ =~= seq!['/']);
        }
        let from = normalize_path(old_path);
        let to = normalize_path(new_path);
        if str_eq(from.as_str(), to.as_str()) {
            return Ok(());
        }
        if str_eq(from.as_str(), "/") || is_descendant(from.as_str(), to.as_str()) {
            return Err(SysErrNo::EINVAL);
        }
        if !self.is_dir(parent_path(to.as_str()).as_str()) {
            return Err(SysErrNo::ENOENT);
        }
        if self.holds_dir(from.as_str()) {
            if str_eq(to.as_str(), "/") {
                return Err(SysErrNo::EEXIST);
            }
            if self.holds_dir(to.as_str()) {
                if self.dir_has_entries(to.as_str()) {
                    return Err(SysErrNo::ENOTEMPTY);
                }
                self.drop_dir_entry(to.as_str());
                self.drop_meta(to.as_str());
            } else if self.holds_node(to.as_str()) {
                return Err(SysErrNo::ENOTDIR);
            }
            self.move_tree(from.as_str(), to.as_str());
            return Ok(());
        }
        self.rename_node(from.as_str(), to.as_str())
    }
}

/// Leaving out a name that nothing has changes nothing.
proof fn lemma_unchanged_without(m: MemFsModel, name: Seq<char>)
    requires
        m.file_index(name) is None,
        !m.symlinks.contains_key(name),
        !m.specials.contains_key(name),
    ensures
        m.without_files(name).without_symlink(name).without_special(name) == m,
{
    lemma_no_file_named(m, name);
    lemma_without_absent(m.files, name);
    assert(m.symlinks.remove(name) =~= m.symlinks);
    assert(m.specials.remove(name) =~= m.specials);
    assert(m.without_files(name).without_symlink(name).without_special(name) =~= m);
}

/// Where no file has a name, none of the files has it.
pub proof fn lemma_no_file_named(m: MemFsModel, name: Seq<char>)
    ensures
        m.file_index(name) is None <==> (forall|i: int|
            0 <= i < m.files.len() ==> (#[trigger] m.files[i]).name != name),
{
    if m.file_index(name) is None {
        assert forall|i: int| 0 <= i < m.files.len() implies (#[trigger] m.files[i]).name != name by {
            if m.files[i].name == name {
                lemma_first_exists(m, name, i);
            }
        }
    }
}

proof fn lemma_first_exists(m: MemFsModel, name: Seq<char>, i: int)
    requires
        0 <= i < m.files.len(),
        m.files[i].name == name,
    ensures
        exists|k: int| m.first_file(name, k),
    decreases i,
{
    if m.first_file(name, i) {
    } else {
        let j = choose|j: int| 0 <= j < i && (#[trigger] m.files[j]).name == name;
        lemma_first_exists(m, name, j);
    }
}

proof fn lemma_without_absent(files: Seq<FileModel>, name: Seq<char>)
    requires
        forall|i: int| 0 <= i < files.len() ==> (#[trigger] files[i]).name != name,
    ensures
        without_file(files, name) == files,
    decreases files.len(),
{
    if files.len() > 0 {
        let front = files.drop_last();
        assert forall|i: int| 0 <= i < front.len() implies (#[trigger] front[i]).name != name by {
            assert(front[i] == files[i]);
        }
        lemma_without_absent(front, name);
        assert(files[files.len() - 1].name != name);
        assert(without_file(files, name) =~= files);
    }
}

} // verus!
