//! Links, attributes, modes and lengths in the in-memory file system.
use vstd::prelude::*;

use crate::bytes::{append_bytes, copy_of};
use crate::errno::SysErrNo;
use crate::fs::content::MAX_FILE_OFFSET;
use crate::fs::memfs::model::{
    distinct_bytes, key_list, key_ok, sharers, target_bytes, BackingModel, FileModel, MemFsModel,
};
use crate::fs::memfs::store::MemFileSystem;
use crate::fs::node::{chown_mode_after_owner_update, MemNodeMetadata, MemSpecialKind};
use crate::fs::path::{is_descendant, normalize_path, normalized, parent_path};
use crate::task::Caller;
use crate::text::{concat, concat3, decimal_text, str_eq};
use crate::textmap::{listing, listing_of_map, TextMap};

verus! {

fn attr_key_ok(key: &str) -> (r: bool)
    ensures
        r == key_ok(key@),
{
    let bytes = key.as_bytes();
    !key.is_empty() && bytes.len() <= 255
}

impl MemFileSystem {
    /// Gives a node that is no directory a second name.
    pub fn link_path(&mut self, old_path: &str, new_path: &str) -> (r: Result<(), SysErrNo>)
        requires
            old(self).wf(),
        ensures
            final(self).wf(),
            (final(self)@, r) == old(self)@.link(old_path@, new_path@),
    {
        let from = normalize_path(old_path);
        let to = normalize_path(new_path);
        if self.holds_dir(from.as_str()) {
            return Err(SysErrNo::EPERM);
        }
        if self.holds_node(to.as_str()) {
            return Err(SysErrNo::EEXIST);
        }
        if !self.is_dir(parent_path(to.as_str()).as_str()) {
            return Err(SysErrNo::ENOENT);
        }
        match self.find_file(from.as_str()) {
            Some(i) => {
                let backing: usize = self.files[i].backing;
                let link_key = self.files[i].link_key.clone();
                assert(self@.files[i as int] == self.files@[i as int]@);
                assert(self@.files[i as int].backing < self@.backings.len());
                let metadata = self.metadata_or_alloc(from.as_str(), 0o666);
                self.push_link(to.as_str(), backing, link_key.as_str());
                self.put_meta(to.as_str(), metadata);
                return Ok(());
            },
            None => {},
        }
        let link: Option<String> = match self.symlinks.get(from.as_str()) {
            Some(target) => Some(target.clone()),
            None => None,
        };
        match link {
            Some(target) => {
                let metadata = self.metadata_or_alloc(from.as_str(), 0o777);
                self.put_symlink(to.as_str(), target.as_str());
                self.put_meta(to.as_str(), metadata);
                return Ok(());
            },
            None => {},
        }
        let special: Option<MemSpecialKind> = match self.specials.get(from.as_str()) {
            Some(kind) => Some(*kind),
            None => None,
        };
        match special {
            Some(kind) => {
                let metadata = self.metadata_or_alloc(from.as_str(), 0o666);
                self.put_special(to.as_str(), kind);
                self.put_meta(to.as_str(), metadata);
                Ok(())
            },
            None => Err(SysErrNo::ENOENT),
        }
    }

    /// The first of the spare names beside a node that is free.
    fn find_spare(&self, parent: &str) -> (r: Option<String>)
        requires
            self.wf(),
        ensures
            match r {
                Some(s) => exists|attempt: nat|
                    self@.first_spare(parent@, attempt) && s@ == MemFsModel::spare_name(
                        parent@,
                        attempt,
                    ),
                None => !(exists|attempt: nat| self@.first_spare(parent@, attempt)),
            },
    {
        let mut attempt: usize = 0;
        while attempt < 32
            invariant
                self.wf(),
                0 <= attempt <= 32,
                forall|j: nat|
                    j < attempt ==> self@.has_node(
                        normalized(#[trigger] MemFsModel::spare_name(parent@, j)),
                    ),
            decreases 32 - attempt,
        {
            let number = decimal_text(attempt);
            proof {
                reveal_strlit("/");
                assert("/"@ =~= seq!['/']);
            }
            let name = if str_eq(parent, "/") {
                concat("/.wll_rename_exchange_", number.as_str())
            } else {
                concat3(parent, "/.wll_rename_exchange_", number.as_str())
            };
            assert(name@ =~= MemFsModel::spare_name(parent@, attempt as nat));
            if !self.node_exists(name.as_str()) {
                assert(self@.first_spare(parent@, attempt as nat));
                return Some(name);
            }
            attempt = attempt + 1;
        }
        None
    }

    /// Swaps two nodes.
    pub fn exchange_path(&mut self, old_path: &str, new_path: &str) -> (r: Result<(), SysErrNo>)
        requires
            old(self).wf(),
        ensures
            final(self).wf(),
            (final(self)@, r) == old(self)@.exchange(old_path@, new_path@),
    {
        proof {
            reveal_strlit("/");
            assert("/"@ =~= seq!['/']);
        }
        let a = normalize_path(old_path);
        let b = normalize_path(new_path);
        if str_eq(a.as_str(), b.as_str()) {
            return Ok(());
        }
        if str_eq(a.as_str(), "/") || str_eq(b.as_str(), "/") {
            return Err(SysErrNo::EINVAL);
        }
        if !self.holds_node(a.as_str()) || !self.holds_node(b.as_str()) {
            return Err(SysErrNo::ENOENT);
        }
        if self.holds_dir(a.as_str()) && is_descendant(a.as_str(), b.as_str()) {
            return Err(SysErrNo::EINVAL);
        }
        if self.holds_dir(b.as_str()) && is_descendant(b.as_str(), a.as_str()) {
            return Err(SysErrNo::EINVAL);
        }
        let parent = parent_path(a.as_str());
        let ghost before = self@;
        let spare = match self.find_spare(parent.as_str()) {
            Some(spare) => spare,
            None => {
                return Err(SysErrNo::EEXIST);
            },
        };
        proof {
            let n = choose|n: nat| self@.first_spare(parent@, n) && spare@ == MemFsModel::spare_name(
                parent@,
                n,
            );
            assert(before.first_spare(parent@, n));
            let c = choose|c: nat| before.first_spare(parent@, c);
            assert(before.first_spare(parent@, c));
            if c < n {
                assert(before.has_node(normalized(MemFsModel::spare_name(parent@, c))));
            } else if n < c {
                assert(before.has_node(normalized(MemFsModel::spare_name(parent@, n))));
            }
        }
        match self.rename_path(a.as_str(), spare.as_str()) {
            Ok(_) => {},
            Err(e) => {
                return Err(e);
            },
        }
        match self.rename_path(b.as_str(), a.as_str()) {
            Ok(_) => {},
            Err(e) => {
                let _ = self.rename_path(spare.as_str(), a.as_str());
                return Err(e);
            },
        }
        self.rename_path(spare.as_str(), b.as_str())
    }

    /// Sets the length of a file.
    pub fn truncate_file(&mut self, caller: &Caller, name: &str, new_len: usize) -> (r: Result<
        (),
        SysErrNo,
    >)
        requires
            old(self).wf(),
            new_len <= MAX_FILE_OFFSET,
        ensures
            final(self).wf(),
            (final(self)@, r) == old(self)@.truncate_file(caller, name@, new_len as nat),
    {
        let name = normalize_path(name);
        match self.find_file(name.as_str()) {
            Some(i) => {
                let b: usize = self.files[i].backing;
                assert(self@.files[i as int].backing == b);
                assert(self@.backings[b as int] == self.backings@[b as int]@);
                assert(self.backings@[b as int].wf());
                let mut content = self.backings[b].content.clone();
                let mut times = self.backings[b].times;
                content.resize(new_len);
                times.touch_modified(caller.now);
                self.put_backing(b, content, times);
                Ok(())
            },
            None => Err(SysErrNo::ENOENT),
        }
    }

    /// Sets the times of a file.
    pub fn set_file_times(
        &mut self,
        caller: &Caller,
        name: &str,
        atime: Option<(isize, isize)>,
        mtime: Option<(isize, isize)>,
    ) -> (r: Result<(), SysErrNo>)
        requires
            old(self).wf(),
        ensures
            final(self).wf(),
            (final(self)@, r) == old(self)@.set_file_times(caller, name@, atime, mtime),
    {
        let name = normalize_path(name);
        match self.find_file(name.as_str()) {
            Some(i) => {
                let b: usize = self.files[i].backing;
                assert(self@.files[i as int].backing == b);
                assert(self@.backings[b as int] == self.backings@[b as int]@);
                let mut times = self.backings[b].times;
                times.set_access_modify(atime, mtime, caller.now);
                self.put_times(b, times);
                Ok(())
            },
            None => Err(SysErrNo::ENOENT),
        }
    }

    /// Sets the mode of a node.
    pub fn set_mode(&mut self, caller: &Caller, name: &str, mode: u32) -> (r: Result<(), SysErrNo>)
        requires
            old(self).wf(),
        ensures
            final(self).wf(),
            (final(self)@, r) == old(self)@.set_mode(caller, name@, mode),
    {
        let name = normalize_path(name);
        if !self.holds_node(name.as_str()) {
            return Err(SysErrNo::ENOENT);
        }
        let meta = self.metadata_or_alloc(name.as_str(), 0o666);
        self.put_meta(name.as_str(), MemNodeMetadata { mode: mode & 0o7777, ..meta });
        self.touch_file(name.as_str(), caller.now);
        Ok(())
    }

    /// Sets the owner of a node, each part if given.
    pub fn set_owner(
        &mut self,
        caller: &Caller,
        name: &str,
        uid: Option<u32>,
        gid: Option<u32>,
    ) -> (r: Result<(), SysErrNo>)
        requires
            old(self).wf(),
        ensures
            final(self).wf(),
            (final(self)@, r) == old(self)@.set_owner(caller, name@, uid, gid),
    {
        let name = normalize_path(name);
        if !self.holds_node(name.as_str()) {
            return Err(SysErrNo::ENOENT);
        }
        let is_regular = self.find_file(name.as_str()).is_some();
        let meta = self.metadata_or_alloc(name.as_str(), 0o666);
        let mode: u32 = chown_mode_after_owner_update(
            meta.mode,
            is_regular,
            uid.is_some() || gid.is_some(),
        );
        let new_uid: u32 = match uid {
            Some(uid) => uid,
            None => meta.uid,
        };
        let new_gid: u32 = match gid {
            Some(gid) => gid,
            None => meta.gid,
        };
        self.put_meta(
            name.as_str(),
            MemNodeMetadata { mode, uid: new_uid, gid: new_gid, ..meta },
        );
        self.touch_file(name.as_str(), caller.now);
        Ok(())
    }

    fn put_flags(&mut self, looked_up: &str, name: &str, mode: u32, flags: u32)
        requires
            old(self).wf(),
        ensures
            final(self).wf(),
            final(self)@ == old(self)@.with_flags_of(looked_up@, name@, mode, flags),
    {
        let meta = self.metadata_or_alloc(looked_up, mode);
        self.put_meta(name, MemNodeMetadata { flags, ..meta });
    }

    /// Sets the flags of a node; a file's flags are those of all its names.
    pub fn set_file_flags(&mut self, name: &str, flags: u32) -> (r: Result<(), SysErrNo>)
        requires
            old(self).wf(),
        ensures
            final(self).wf(),
            (final(self)@, r) == old(self)@.set_file_flags(name@, flags),
    {
        let name = normalize_path(name);
        if !self.holds_node(name.as_str()) {
            return Err(SysErrNo::ENOENT);
        }
        match self.find_file(name.as_str()) {
            Some(i) => {
                let backing: usize = self.files[i].backing;
                assert(self@.files[i as int].backing == backing);
                let ghost before = self@;
                let mut k: usize = 0;
                assert(before.files.take(0) =~= Seq::empty());
                while k < self.files.len()
                    invariant
                        self.wf(),
                        self@.files == before.files,
                        self@.files.len() == self.files@.len(),
                        0 <= k <= before.files.len(),
                        self@ == before.with_flags(
                            before.files.take(k as int),
                            backing as int,
                            flags,
                        ),
                    decreases before.files.len() - k,
                {
                    proof {
                        let next = before.files.take(k + 1);
                        assert(next.drop_last() =~= before.files.take(k as int));
                        assert(self@.files[k as int] == self.files@[k as int]@);
                        assert(next.last() == self.files@[k as int]@);
                    }
                    if self.files[k].backing == backing {
                        let linked = self.files[k].name.clone();
                        let looked_up = normalize_path(linked.as_str());
                        self.put_flags(looked_up.as_str(), linked.as_str(), 0o666, flags);
                    }
                    k = k + 1;
                }
                assert(before.files.take(k as int) =~= before.files);
                return Ok(());
            },
            None => {},
        }
        let mode: u32 = if self.holds_dir(name.as_str()) {
            0o755
        } else if self.symlinks.contains_key(name.as_str()) {
            0o777
        } else {
            0o666
        };
        self.put_flags(name.as_str(), name.as_str(), mode, flags);
        Ok(())
    }

    /// The inode whose attributes a name has, and whether they may be set.
    pub(crate) fn xattr_inode_and_set_allowed(&self, name: &str) -> (r: Result<
        (u64, bool),
        SysErrNo,
    >)
        requires
            self.wf(),
        ensures
            r == self@.xattr_inode(name@),
    {
        let name = normalize_path(name);
        let set_allowed = self.find_file(name.as_str()).is_some() || self.holds_dir(name.as_str());
        let present = set_allowed || self.symlinks.contains_key(name.as_str())
            || self.specials.contains_key(name.as_str());
        if !present {
            return Err(SysErrNo::ENOENT);
        }
        match self.meta_at(name.as_str()) {
            Some(meta) => if meta.ino != 0 {
                Ok((meta.ino, set_allowed))
            } else {
                Err(SysErrNo::ENOENT)
            },
            None => Err(SysErrNo::ENOENT),
        }
    }

    fn holds_attr(&self, ino: u64, key: &str) -> (r: bool)
        requires
            self.wf(),
        ensures
            r == self@.attrs(ino).contains_key(key@),
    {
        match self.xattrs.get(ino as u128) {
            Some(attrs) => {
                assert(self.xattrs@[ino as u128].wf());
                attrs.contains_key(key)
            },
            None => false,
        }
    }

    fn take_attrs(&mut self, ino: u64) -> (r: TextMap<Vec<u8>>)
        requires
            old(self).wf(),
        ensures
            final(self).wf(),
            r.wf(),
            r@.map_values(|v: Vec<u8>| v@) == old(self)@.attrs(ino),
            final(self)@ == (MemFsModel { xattrs: old(self)@.xattrs.remove(ino), ..old(self)@ }),
    {
        let ghost before = self@;
        let ghost had = self.xattrs@.contains_key(ino as u128);
        assert(had ==> self.xattrs@[ino as u128].wf());
        let r = match self.xattrs.remove(ino as u128) {
            Some(attrs) => attrs,
            None => TextMap::new(),
        };
        proof {
            assert(self@.xattrs =~= before.xattrs.remove(ino));
            assert(self@.files =~= before.files);
            assert(r@.map_values(|v: Vec<u8>| v@) =~= before.attrs(ino));
        }
        r
    }

    fn put_attrs(&mut self, ino: u64, attrs: TextMap<Vec<u8>>)
        requires
            old(self).wf(),
            attrs.wf(),
        ensures
            final(self).wf(),
            final(self)@ == (MemFsModel {
                xattrs: old(self)@.xattrs.insert(ino, attrs@.map_values(|v: Vec<u8>| v@)),
                ..old(self)@
            }),
    {
        let ghost before = self@;
        let ghost a = attrs@;
        self.xattrs.insert(ino as u128, attrs);
        proof {
            assert(self@.xattrs =~= before.xattrs.insert(ino, a.map_values(|v: Vec<u8>| v@)));
            assert(self@.files =~= before.files);
        }
    }

    /// Sets an attribute of a file or directory. Of the flags, 1 asks that it
    /// be new and 2 that it be there already.
    pub fn set_xattr(
        &mut self,
        caller: &Caller,
        name: &str,
        key: &str,
        value: &[u8],
        flags: usize,
    ) -> (r: Result<(), SysErrNo>)
        requires
            old(self).wf(),
        ensures
            final(self).wf(),
            (final(self)@, r) == old(self)@.set_xattr(caller, name@, key@, value@, flags),
    {
        if flags > 2 {
            return Err(SysErrNo::EINVAL);
        }
        if !attr_key_ok(key) {
            return Err(SysErrNo::ERANGE);
        }
        if value.len() > 65536 {
            return Err(SysErrNo::E2BIG);
        }
        let (ino, set_allowed) = match self.xattr_inode_and_set_allowed(name) {
            Ok(found) => found,
            Err(e) => {
                return Err(e);
            },
        };
        if !set_allowed {
            return Err(SysErrNo::EPERM);
        }
        let present = self.holds_attr(ino, key);
        if flags == 1 && present {
            return Err(SysErrNo::EEXIST);
        }
        if flags == 2 && !present {
            return Err(SysErrNo::ENODATA);
        }
        let ghost before = self@;
        let mut attrs = self.take_attrs(ino);
        let ghost had = attrs@;
        let stored = copy_of(value);
        attrs.insert(key.to_owned(), stored);
        proof {
            let f = |v: Vec<u8>| v@;
            assert(attrs@.map_values(f) =~= had.map_values(f).insert(key@, value@));
        }
        self.put_attrs(ino, attrs);
        proof {
            assert(self@.xattrs =~= before.xattrs.insert(
                ino,
                before.attrs(ino).insert(key@, value@),
            ));
        }
        let name = normalize_path(name);
        self.touch_file(name.as_str(), caller.now);
        Ok(())
    }

    /// The value of an attribute.
    pub fn get_xattr(&self, name: &str, key: &str) -> (r: Result<Vec<u8>, SysErrNo>)
        requires
            self.wf(),
        ensures
            match r {
                Ok(v) => self@.get_xattr(name@, key@) == Ok::<Seq<u8>, SysErrNo>(v@),
                Err(e) => self@.get_xattr(name@, key@) == Err::<Seq<u8>, SysErrNo>(e),
            },
    {
        if !attr_key_ok(key) {
            return Err(SysErrNo::ERANGE);
        }
        let (ino, _) = match self.xattr_inode_and_set_allowed(name) {
            Ok(found) => found,
            Err(e) => {
                return Err(e);
            },
        };
        match self.xattrs.get(ino as u128) {
            Some(attrs) => {
                assert(self.xattrs@[ino as u128].wf());
                match attrs.get(key) {
                    Some(value) => Ok(copy_of(value.as_slice())),
                    None => Err(SysErrNo::ENODATA),
                }
            },
            None => Err(SysErrNo::ENODATA),
        }
    }

    /// The names of all attributes, in order, each ended by a zero.
    pub fn list_xattr(&self, name: &str) -> (r: Result<Vec<u8>, SysErrNo>)
        requires
            self.wf(),
        ensures
            match r {
                Ok(v) => self@.xattr_inode(name@) is Ok && v@ == key_list(
                    listing(self@.attrs(self@.xattr_inode(name@)->Ok_0.0).dom()),
                ),
                Err(e) => self@.xattr_inode(name@) == Err::<(u64, bool), SysErrNo>(e),
            },
    {
        let (ino, _) = match self.xattr_inode_and_set_allowed(name) {
            Ok(found) => found,
            Err(e) => {
                return Err(e);
            },
        };
        let mut out: Vec<u8> = Vec::new();
        match self.xattrs.get(ino as u128) {
            Some(attrs) => {
                assert(self.xattrs@[ino as u128].wf());
                let ghost keys = attrs.keys();
                proof {
                    listing_of_map(attrs);
                    assert(self@.attrs(ino).dom() =~= attrs@.dom());
                }
                let mut i: usize = 0;
                assert(keys.take(0) =~= Seq::empty());
                while i < attrs.len()
                    invariant
                        attrs.wf(),
                        keys == attrs.keys(),
                        0 <= i <= keys.len(),
                        out@ == key_list(keys.take(i as int)),
                    decreases keys.len() - i,
                {
                    assert(keys.take(i + 1).drop_last() =~= keys.take(i as int));
                    append_bytes(&mut out, attrs.key_at(i).as_str().as_bytes());
                    out.push(0);
                    i = i + 1;
                }
                assert(keys.take(i as int) =~= keys);
            },
            None => {
                proof {
                    assert(self@.attrs(ino).dom() =~= Set::empty());
                    lemma_empty_listing(self@.attrs(ino).dom());
                }
            },
        }
        Ok(out)
    }

    /// Takes an attribute of a file or directory away.
    pub fn remove_xattr(&mut self, caller: &Caller, name: &str, key: &str) -> (r: Result<
        (),
        SysErrNo,
    >)
        requires
            old(self).wf(),
        ensures
            final(self).wf(),
            (final(self)@, r) == old(self)@.remove_xattr(caller, name@, key@),
    {
        if !attr_key_ok(key) {
            return Err(SysErrNo::ERANGE);
        }
        let (ino, set_allowed) = match self.xattr_inode_and_set_allowed(name) {
            Ok(found) => found,
            Err(e) => {
                return Err(e);
            },
        };
        if !set_allowed {
            return Err(SysErrNo::EPERM);
        }
        if !self.holds_attr(ino, key) {
            return Err(SysErrNo::ENODATA);
        }
        let ghost before = self@;
        let mut attrs = self.take_attrs(ino);
        let ghost had = attrs@;
        let _ = attrs.remove(key);
        let left: usize = attrs.len();
        proof {
            let f = |v: Vec<u8>| v@;
            assert(attrs@.map_values(f) =~= had.map_values(f).remove(key@));
            assert(attrs@.map_values(f).dom() =~= attrs@.dom());
        }
        if left > 0 {
            self.put_attrs(ino, attrs);
            assert(self@.xattrs =~= before.xattrs.insert(ino, before.attrs(ino).remove(key@)));
        }
        let name = normalize_path(name);
        self.touch_file(name.as_str(), caller.now);
        Ok(())
    }

    /// The lengths of all contents, each counted once, and of all link targets.
    pub fn total_file_bytes(&self) -> (n: usize)
        requires
            self.wf(),
            distinct_bytes(self@.files, self@.backings) + target_bytes(
                listing(self@.symlinks.dom()),
                self@.symlinks,
            ) <= usize::MAX,
        ensures
            n == distinct_bytes(self@.files, self@.backings) + target_bytes(
                listing(self@.symlinks.dom()),
                self@.symlinks,
            ),
    {
        let ghost files = self@.files;
        let ghost backings = self@.backings;
        let mut n: usize = 0;
        let mut i: usize = 0;
        assert(files.take(0) =~= Seq::empty());
        while i < self.files.len()
            invariant
                self.wf(),
                files == self@.files,
                backings == self@.backings,
                files.len() == self.files@.len(),
                distinct_bytes(files, backings) <= usize::MAX,
                0 <= i <= files.len(),
                n == distinct_bytes(files.take(i as int), backings),
            decreases files.len() - i,
        {
            let b: usize = self.files[i].backing;
            proof {
                let next = files.take(i + 1);
                assert(next.drop_last() =~= files.take(i as int));
                assert(files[i as int] == self.files@[i as int]@);
                assert(next.last() == self.files@[i as int]@);
                lemma_distinct_monotonic(files, backings, i + 1);
                assert(backings[b as int] == self.backings@[b as int]@);
            }
            if !self.shared_before(b, i) {
                n = n + self.backings[b].content.len();
            }
            i = i + 1;
        }
        assert(files.take(i as int) =~= files);
        let ghost keys = self.symlinks.keys();
        let ghost links = self@.symlinks;
        let ghost base = n as nat;
        proof {
            listing_of_map(&self.symlinks);
            assert(links.dom() =~= self.symlinks@.dom());
            self.symlinks.keys_list_domain();
            assert(keys.take(0) =~= Seq::empty());
        }
        let mut k: usize = 0;
        while k < self.symlinks.len()
            invariant
                self.symlinks.wf(),
                keys == self.symlinks.keys(),
                links == self.symlinks@.map_values(|s: String| s@),
                0 <= k <= keys.len(),
                base + target_bytes(keys, links) <= usize::MAX,
                n == base + target_bytes(keys.take(k as int), links),
            decreases keys.len() - k,
        {
            let target: &str = self.symlinks.value_at(k).as_str();
            proof {
                let next = keys.take(k + 1);
                assert(next.drop_last() =~= keys.take(k as int));
                assert(links[keys[k as int]] == target@);
                lemma_targets_monotonic(keys, links, k + 1);
            }
            n = n + target.as_bytes().len();
            k = k + 1;
        }
        assert(keys.take(k as int) =~= keys);
        n
    }

    fn shared_before(&self, backing: usize, end: usize) -> (r: bool)
        requires
            end <= self.files@.len(),
        ensures
            r == (sharers(self@.files.take(end as int), backing as int) > 0),
    {
        let mut i: usize = 0;
        assert(self@.files.take(0) =~= Seq::empty());
        while i < end
            invariant
                0 <= i <= end <= self.files@.len(),
                self@.files.len() == self.files@.len(),
                sharers(self@.files.take(i as int), backing as int) == 0,
            decreases end - i,
        {
            proof {
                let next = self@.files.take(i + 1);
                assert(next.drop_last() =~= self@.files.take(i as int));
                assert(next.last() == self.files@[i as int]@);
            }
            if self.files[i].backing == backing {
                proof {
                    lemma_sharers_monotonic(self@.files, backing as int, i + 1, end as int);
                }
                return true;
            }
            i = i + 1;
        }
        false
    }
}

proof fn lemma_sharers_monotonic(files: Seq<FileModel>, backing: int, a: int, b: int)
    requires
        0 <= a <= b <= files.len(),
    ensures
        sharers(files.take(a), backing) <= sharers(files.take(b), backing),
    decreases b - a,
{
    if a < b {
        lemma_sharers_monotonic(files, backing, a, b - 1);
        assert(files.take(b).drop_last() =~= files.take(b - 1));
    }
}

proof fn lemma_distinct_monotonic(files: Seq<FileModel>, backings: Seq<BackingModel>, i: int)
    requires
        0 <= i <= files.len(),
    ensures
        distinct_bytes(files.take(i), backings) <= distinct_bytes(files, backings),
    decreases files.len() - i,
{
    if i < files.len() {
        lemma_distinct_monotonic(files, backings, i + 1);
        assert(files.take(i + 1).drop_last() =~= files.take(i));
    } else {
        assert(files.take(i) =~= files);
    }
}

proof fn lemma_targets_monotonic(
    keys: Seq<Seq<char>>,
    links: Map<Seq<char>, Seq<char>>,
    i: int,
)
    requires
        0 <= i <= keys.len(),
    ensures
        target_bytes(keys.take(i), links) <= target_bytes(keys, links),
    decreases keys.len() - i,
{
    if i < keys.len() {
        lemma_targets_monotonic(keys, links, i + 1);
        assert(keys.take(i + 1).drop_last() =~= keys.take(i));
    } else {
        assert(keys.take(i) =~= keys);
    }
}

proof fn lemma_empty_listing(set: Set<Seq<char>>)
    requires
        set == Set::<Seq<char>>::empty(),
    ensures
        listing(set) == Seq::<Seq<char>>::empty(),
{
    let e = Seq::<Seq<char>>::empty();
    assert(crate::textmap::lists(e, set));
    crate::textmap::listing_is_unique(e, listing(set), set);
}

} // verus!
