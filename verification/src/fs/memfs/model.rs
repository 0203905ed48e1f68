//! The in-memory file system as a mathematical value, and what each operation
//! does to it.
use vstd::prelude::*;

use crate::bytes::resized;
use crate::errno::SysErrNo;
use crate::fs::content::{is_elf, written, MAX_FILE_OFFSET};
use crate::fs::node::{mode_after_chown, FileTimes, MemNodeMetadata, MemSpecialKind};
use crate::fs::path::{
    child_of, descends, join, last_piece, normalized, parent_of, split,
};
use crate::task::{Caller, Credentials, Timestamp};
use crate::text::{decimal, text_lt};
use crate::textmap::{listing, moved_keys, moved_path, moves};

verus! {

/// A name of a file, and which contents it stands for.
pub struct FileModel {
    pub name: Seq<char>,
    pub backing: int,
    pub link_key: Seq<char>,
}

/// The contents and times of a file.
#[verifier::ext_equal]
pub struct BackingModel {
    pub content: Seq<u8>,
    pub times: FileTimes,
}

/// One entry of a directory listing.
pub struct DirEntryModel {
    pub name: Seq<char>,
    pub is_dir: bool,
}

/// The in-memory file system.
#[verifier::ext_equal]
pub struct MemFsModel {
    pub files: Seq<FileModel>,
    pub backings: Seq<BackingModel>,
    pub dirs: Seq<Seq<char>>,
    pub symlinks: Map<Seq<char>, Seq<char>>,
    pub specials: Map<Seq<char>, MemSpecialKind>,
    pub metadata: Map<Seq<char>, MemNodeMetadata>,
    pub xattrs: Map<u64, Map<Seq<char>, Seq<u8>>>,
    pub next_ino: u64,
}

/// The inode number after `ino`.
pub open spec fn next_inode(ino: u64) -> u64 {
    if ino == u64::MAX {
        ino
    } else if ino < 1 {
        2
    } else {
        (ino + 1) as u64
    }
}

/// The files without those of a name.
pub open spec fn without_file(files: Seq<FileModel>, name: Seq<char>) -> Seq<FileModel>
    decreases files.len(),
{
    if files.len() == 0 {
        files
    } else if files.last().name == name {
        without_file(files.drop_last(), name)
    } else {
        without_file(files.drop_last(), name).push(files.last())
    }
}

/// The texts without those equal to one.
pub open spec fn without_text(dirs: Seq<Seq<char>>, name: Seq<char>) -> Seq<Seq<char>>
    decreases dirs.len(),
{
    if dirs.len() == 0 {
        dirs
    } else if dirs.last() == name {
        without_text(dirs.drop_last(), name)
    } else {
        without_text(dirs.drop_last(), name).push(dirs.last())
    }
}

/// How many files share some contents.
pub open spec fn sharers(files: Seq<FileModel>, backing: int) -> nat
    decreases files.len(),
{
    if files.len() == 0 {
        0
    } else if files.last().backing == backing {
        sharers(files.drop_last(), backing) + 1
    } else {
        sharers(files.drop_last(), backing)
    }
}

/// The lengths of all contents that files stand for, each counted once.
pub open spec fn distinct_bytes(files: Seq<FileModel>, backings: Seq<BackingModel>) -> nat
    decreases files.len(),
{
    if files.len() == 0 {
        0
    } else {
        let front = files.drop_last();
        let b = files.last().backing;
        distinct_bytes(front, backings) + (if sharers(front, b) > 0 {
            0
        } else {
            backings[b].content.len()
        })
    }
}

/// The encoded lengths of the targets of links, in the order of the links.
pub open spec fn target_bytes(
    keys: Seq<Seq<char>>,
    symlinks: Map<Seq<char>, Seq<char>>,
) -> nat
    decreases keys.len(),
{
    if keys.len() == 0 {
        0
    } else {
        target_bytes(keys.drop_last(), symlinks) + vstd::utf8::encode_utf8(
            symlinks[keys.last()],
        ).len()
    }
}

/// The entries of a directory among some paths.
pub open spec fn children(
    dir: Seq<char>,
    paths: Seq<Seq<char>>,
    is_dir: bool,
) -> Seq<DirEntryModel>
    decreases paths.len(),
{
    if paths.len() == 0 {
        Seq::empty()
    } else {
        let front = children(dir, paths.drop_last(), is_dir);
        match child_of(dir, paths.last()) {
            Some(name) => front.push(DirEntryModel { name, is_dir }),
            None => front,
        }
    }
}

/// A listing in order with one more entry, behind those of the same name.
pub open spec fn entry_inserted(sorted: Seq<DirEntryModel>, e: DirEntryModel) -> Seq<DirEntryModel>
    decreases sorted.len(),
{
    if sorted.len() > 0 && text_lt(e.name, sorted.last().name) {
        entry_inserted(sorted.drop_last(), e).push(sorted.last())
    } else {
        sorted.push(e)
    }
}

/// The entries in the order of their names; equal names stay in order.
pub open spec fn entries_sorted(entries: Seq<DirEntryModel>) -> Seq<DirEntryModel>
    decreases entries.len(),
{
    if entries.len() == 0 {
        entries
    } else {
        entry_inserted(entries_sorted(entries.drop_last()), entries.last())
    }
}

/// The pieces that are not empty.
pub open spec fn nonempty(pieces: Seq<Seq<char>>) -> Seq<Seq<char>>
    decreases pieces.len(),
{
    if pieces.len() == 0 {
        pieces
    } else if pieces.last().len() == 0 {
        nonempty(pieces.drop_last())
    } else {
        nonempty(pieces.drop_last()).push(pieces.last())
    }
}

/// The pieces in front of the first one equal to `stop`.
pub open spec fn before_piece(pieces: Seq<Seq<char>>, stop: Seq<char>) -> Seq<Seq<char>>
    decreases pieces.len(),
{
    if pieces.len() == 0 {
        pieces
    } else if before_piece(pieces.drop_last(), stop).len() < pieces.len() - 1 || pieces.last()
        == stop {
        before_piece(pieces.drop_last(), stop)
    } else {
        pieces
    }
}

/// The names of the directories in front of a path. A directory with the name
/// of the path's last piece, and what lies behind it, is left out.
pub open spec fn leading_names(path: Seq<char>) -> Seq<Seq<char>> {
    before_piece(nonempty(split(path)), last_piece(split(path)))
}

/// Keys of an attribute list, each ended by a zero.
pub open spec fn key_list(keys: Seq<Seq<char>>) -> Seq<u8>
    decreases keys.len(),
{
    if keys.len() == 0 {
        Seq::empty()
    } else {
        (key_list(keys.drop_last()) + vstd::utf8::encode_utf8(keys.last())).push(0)
    }
}

/// Whether an attribute name has an accepted length.
pub open spec fn key_ok(key: Seq<char>) -> bool {
    key.len() > 0 && vstd::utf8::encode_utf8(key).len() <= 255
}

impl MemFsModel {
    /// Whether `i` is the first file of a name.
    pub open spec fn first_file(self, name: Seq<char>, i: int) -> bool {
        &&& 0 <= i < self.files.len()
        &&& self.files[i].name == name
        &&& forall|j: int| 0 <= j < i ==> (#[trigger] self.files[j]).name != name
    }

    /// The first file of a name.
    pub open spec fn file_index(self, name: Seq<char>) -> Option<int> {
        if exists|i: int| self.first_file(name, i) {
            Some(choose|i: int| self.first_file(name, i))
        } else {
            None
        }
    }

    /// Whether a name is a directory.
    pub open spec fn has_dir(self, name: Seq<char>) -> bool {
        self.dirs.contains(name)
    }

    /// Whether anything has a name.
    pub open spec fn has_node(self, name: Seq<char>) -> bool {
        self.file_index(name) is Some || self.has_dir(name) || self.symlinks.contains_key(name)
            || self.specials.contains_key(name)
    }

    /// What is recorded of a name.
    pub open spec fn meta_of(self, name: Seq<char>) -> Option<MemNodeMetadata> {
        if self.metadata.contains_key(name) {
            Some(self.metadata[name])
        } else {
            None
        }
    }

    /// The contents and times of a file.
    pub open spec fn backing_of(self, name: Seq<char>) -> BackingModel {
        self.backings[self.files[self.file_index(name)->0].backing]
    }

    /// The same system with other contents and times for a file.
    pub open spec fn with_backing(self, name: Seq<char>, b: BackingModel) -> MemFsModel {
        MemFsModel {
            backings: self.backings.update(self.files[self.file_index(name)->0].backing, b),
            ..self
        }
    }

    /// The same system in which a file, if there is one, records a change.
    pub open spec fn touched(self, name: Seq<char>, now: Timestamp) -> MemFsModel {
        if self.file_index(name) is Some {
            let b = self.backing_of(name);
            self.with_backing(name, BackingModel { times: b.times.changed(now), ..b })
        } else {
            self
        }
    }

    /// The empty system: one root directory.
    pub open spec fn initial() -> MemFsModel {
        MemFsModel {
            files: Seq::empty(),
            backings: Seq::empty(),
            dirs: seq![seq!['/']],
            symlinks: Map::empty(),
            specials: Map::empty(),
            metadata: Map::empty().insert(
                seq!['/'],
                MemNodeMetadata { ino: 1, ..MemNodeMetadata::plain(0o755) },
            ),
            xattrs: Map::empty(),
            next_ino: 2,
        }
    }

    /// The same system after an inode number has been given out, if needed.
    pub open spec fn after_alloc(self, meta: MemNodeMetadata) -> MemFsModel {
        if meta.ino == 0 {
            MemFsModel { next_ino: next_inode(self.next_ino), ..self }
        } else {
            self
        }
    }

    /// What is recorded once an inode number has been given out, if needed.
    pub open spec fn allocated(self, meta: MemNodeMetadata) -> MemNodeMetadata {
        if meta.ino == 0 {
            MemNodeMetadata { ino: self.next_ino, ..meta }
        } else {
            meta
        }
    }

    /// The same system with something recorded of a name.
    pub open spec fn with_meta(self, name: Seq<char>, meta: MemNodeMetadata) -> MemFsModel {
        MemFsModel { metadata: self.metadata.insert(name, meta), ..self }
    }

    /// The same system with something new recorded of a name.
    pub open spec fn with_new_meta(self, name: Seq<char>, meta: MemNodeMetadata) -> MemFsModel {
        self.after_alloc(meta).with_meta(name, self.allocated(meta))
    }

    /// The same system in which something is recorded of a name.
    pub open spec fn with_some_meta(self, name: Seq<char>, meta: MemNodeMetadata) -> MemFsModel {
        if self.metadata.contains_key(name) {
            self
        } else {
            self.with_new_meta(name, meta)
        }
    }

    /// What a new node of a task gets inside its directory.
    pub open spec fn child_meta(
        self,
        cred: &Credentials,
        name: Seq<char>,
        mode: u32,
        is_dir: bool,
    ) -> MemNodeMetadata {
        MemNodeMetadata::child(cred, self.meta_of(normalized(parent_of(name))), mode, is_dir)
    }

    /// The same system with the directories of some names, one below the other.
    pub open spec fn with_dirs(self, names: Seq<Seq<char>>) -> MemFsModel
        decreases names.len(),
    {
        if names.len() == 0 {
            self
        } else {
            let before = self.with_dirs(names.drop_last());
            before.with_dir_entry(seq!['/'] + join(names)).with_some_meta(
                seq!['/'] + join(names),
                MemNodeMetadata::plain(0o755),
            )
        }
    }

    /// The same system in which a name is a directory.
    pub open spec fn with_dir_entry(self, name: Seq<char>) -> MemFsModel {
        if self.has_dir(name) {
            self
        } else {
            MemFsModel { dirs: self.dirs.push(name), ..self }
        }
    }

    /// The same system with the directories in front of a path.
    pub open spec fn with_parents(self, path: Seq<char>) -> MemFsModel {
        self.with_dirs(leading_names(path))
    }

    /// The same system in which a name is one file with contents of its own.
    pub open spec fn with_file(
        self,
        name: Seq<char>,
        content: Seq<u8>,
        times: FileTimes,
    ) -> MemFsModel {
        MemFsModel {
            files: without_file(self.files, name).push(
                FileModel { name, backing: self.backings.len() as int, link_key: name },
            ),
            backings: self.backings.push(BackingModel { content, times }),
            ..self
        }
    }

    /// The same system without a link of a name.
    pub open spec fn without_symlink(self, name: Seq<char>) -> MemFsModel {
        MemFsModel { symlinks: self.symlinks.remove(name), ..self }
    }

    /// The same system without a special node of a name.
    pub open spec fn without_special(self, name: Seq<char>) -> MemFsModel {
        MemFsModel { specials: self.specials.remove(name), ..self }
    }

    /// The same system without files of a name.
    pub open spec fn without_files(self, name: Seq<char>) -> MemFsModel {
        MemFsModel { files: without_file(self.files, name), ..self }
    }

    /// The same system with nothing recorded of a name.
    pub open spec fn without_meta(self, name: Seq<char>) -> MemFsModel {
        MemFsModel { metadata: self.metadata.remove(name), ..self }
    }

    /// The same system with one more name for a file's contents.
    pub open spec fn with_link(
        self,
        name: Seq<char>,
        backing: int,
        link_key: Seq<char>,
    ) -> MemFsModel {
        MemFsModel { files: self.files.push(FileModel { name, backing, link_key }), ..self }
    }

    /// Adding a file, with a mode that tells executable images apart.
    pub open spec fn add_file(
        self,
        caller: &Caller,
        path: Seq<char>,
        content: Seq<u8>,
    ) -> MemFsModel {
        let name = normalized(path);
        self.with_parents(name).without_symlink(name).with_file(
            name,
            content,
            FileTimes::at(caller.now),
        ).with_new_meta(
            name,
            MemNodeMetadata::owned(
                &caller.cred,
                if is_elf(content) {
                    0o777
                } else {
                    0o666
                },
            ),
        )
    }

    /// Adding a file with a mode.
    pub open spec fn add_file_with_mode(
        self,
        caller: &Caller,
        path: Seq<char>,
        content: Seq<u8>,
        mode: u32,
    ) -> MemFsModel {
        let name = normalized(path);
        let m = self.with_parents(name).without_symlink(name).without_special(name).with_file(
            name,
            content,
            FileTimes::at(caller.now),
        );
        m.with_new_meta(name, m.child_meta(&caller.cred, name, mode, false))
    }

    /// Adding a file of which everything is given.
    pub open spec fn add_file_with_metadata(
        self,
        path: Seq<char>,
        content: Seq<u8>,
        times: FileTimes,
        metadata: MemNodeMetadata,
    ) -> (MemFsModel, Result<(), SysErrNo>) {
        let name = normalized(path);
        if !self.has_dir(normalized(parent_of(name))) {
            (self, Err(SysErrNo::ENOENT))
        } else if self.has_node(name) {
            (self, Err(SysErrNo::EEXIST))
        } else {
            (
                self.without_symlink(name).without_special(name).with_file(
                    name,
                    content,
                    times,
                ).with_meta(name, metadata),
                Ok(()),
            )
        }
    }

    /// Adding a directory.
    pub open spec fn add_dir(self, caller: &Caller, path: Seq<char>) -> MemFsModel {
        let name = normalized(path);
        self.with_parents(name).without_symlink(name).with_dir_entry(name).with_some_meta(
            name,
            MemNodeMetadata::owned(&caller.cred, 0o755),
        )
    }

    /// Adding a directory with a mode.
    pub open spec fn add_dir_with_mode(
        self,
        caller: &Caller,
        path: Seq<char>,
        mode: u32,
    ) -> MemFsModel {
        let name = normalized(path);
        let m = self.with_parents(name).without_symlink(name).without_special(name);
        if m.has_dir(name) {
            m.with_some_meta(name, MemNodeMetadata::owned(&caller.cred, 0o755)).set_mode(
                caller,
                name,
                mode,
            ).0
        } else {
            let d = m.with_dir_entry(name);
            d.with_new_meta(name, d.child_meta(&caller.cred, name, mode, true))
        }
    }

    /// Adding a symbolic link.
    pub open spec fn add_symlink(
        self,
        caller: &Caller,
        path: Seq<char>,
        target: Seq<char>,
    ) -> (MemFsModel, Result<(), SysErrNo>) {
        let name = normalized(path);
        if !self.has_dir(normalized(parent_of(name))) {
            (self, Err(SysErrNo::ENOENT))
        } else if self.has_node(name) {
            (self, Err(SysErrNo::EEXIST))
        } else {
            let m = MemFsModel { symlinks: self.symlinks.insert(name, target), ..self };
            (m.with_new_meta(name, m.child_meta(&caller.cred, name, 0o777, false)), Ok(()))
        }
    }

    /// Adding a special node.
    pub open spec fn add_special_with_mode(
        self,
        caller: &Caller,
        path: Seq<char>,
        kind: MemSpecialKind,
        mode: u32,
    ) -> (MemFsModel, Result<(), SysErrNo>) {
        let name = normalized(path);
        if !self.has_dir(normalized(parent_of(name))) {
            (self, Err(SysErrNo::ENOENT))
        } else if self.has_node(name) {
            (self, Err(SysErrNo::EEXIST))
        } else {
            let m = MemFsModel { specials: self.specials.insert(name, kind), ..self };
            (m.with_new_meta(name, m.child_meta(&caller.cred, name, mode, false)), Ok(()))
        }
    }

    /// Whether a directory has anything below it.
    pub open spec fn has_entries(self, name: Seq<char>) -> bool {
        ||| exists|i: int| 0 <= i < self.files.len() && descends(name, (#[trigger] self.files[i]).name)
        ||| exists|k: Seq<char>| #[trigger] self.symlinks.contains_key(k) && descends(name, k)
        ||| exists|k: Seq<char>| #[trigger] self.specials.contains_key(k) && descends(name, k)
        ||| exists|i: int|
            0 <= i < self.dirs.len() && #[trigger] self.dirs[i] != name && descends(
                name,
                self.dirs[i],
            )
    }

    /// The inode whose attributes a name has, and whether they may be set.
    pub open spec fn xattr_inode(self, path: Seq<char>) -> Result<(u64, bool), SysErrNo> {
        let name = normalized(path);
        let settable = self.file_index(name) is Some || self.has_dir(name);
        if !self.has_node(name) || !self.metadata.contains_key(name) || self.metadata[name].ino
            == 0 {
            Err(SysErrNo::ENOENT)
        } else {
            Ok((self.metadata[name].ino, settable))
        }
    }

    /// The attributes of an inode.
    pub open spec fn attrs(self, ino: u64) -> Map<Seq<char>, Seq<u8>> {
        if self.xattrs.contains_key(ino) {
            self.xattrs[ino]
        } else {
            Map::empty()
        }
    }

    /// Setting an attribute. Of the flags, 1 asks that it be new and 2 that it
    /// be there already.
    pub open spec fn set_xattr(
        self,
        caller: &Caller,
        path: Seq<char>,
        key: Seq<char>,
        value: Seq<u8>,
        flags: usize,
    ) -> (MemFsModel, Result<(), SysErrNo>) {
        if flags > 2 {
            (self, Err(SysErrNo::EINVAL))
        } else if !key_ok(key) {
            (self, Err(SysErrNo::ERANGE))
        } else if value.len() > 65536 {
            (self, Err(SysErrNo::E2BIG))
        } else {
            match self.xattr_inode(path) {
                Err(e) => (self, Err(e)),
                Ok((ino, settable)) => if !settable {
                    (self, Err(SysErrNo::EPERM))
                } else if flags == 1 && self.attrs(ino).contains_key(key) {
                    (self, Err(SysErrNo::EEXIST))
                } else if flags == 2 && !self.attrs(ino).contains_key(key) {
                    (self, Err(SysErrNo::ENODATA))
                } else {
                    (
                        (MemFsModel {
                            xattrs: self.xattrs.insert(ino, self.attrs(ino).insert(key, value)),
                            ..self
                        }).touched(normalized(path), caller.now),
                        Ok(()),
                    )
                },
            }
        }
    }

    /// The value of an attribute.
    pub open spec fn get_xattr(self, path: Seq<char>, key: Seq<char>) -> Result<
        Seq<u8>,
        SysErrNo,
    > {
        if !key_ok(key) {
            Err(SysErrNo::ERANGE)
        } else {
            match self.xattr_inode(path) {
                Err(e) => Err(e),
                Ok((ino, _)) => if self.attrs(ino).contains_key(key) {
                    Ok(self.attrs(ino)[key])
                } else {
                    Err(SysErrNo::ENODATA)
                },
            }
        }
    }

    /// Taking an attribute away.
    pub open spec fn remove_xattr(
        self,
        caller: &Caller,
        path: Seq<char>,
        key: Seq<char>,
    ) -> (MemFsModel, Result<(), SysErrNo>) {
        if !key_ok(key) {
            (self, Err(SysErrNo::ERANGE))
        } else {
            match self.xattr_inode(path) {
                Err(e) => (self, Err(e)),
                Ok((ino, settable)) => if !settable {
                    (self, Err(SysErrNo::EPERM))
                } else if !self.attrs(ino).contains_key(key) {
                    (self, Err(SysErrNo::ENODATA))
                } else {
                    let left = self.attrs(ino).remove(key);
                    let xattrs = if left.dom().len() == 0 {
                        self.xattrs.remove(ino)
                    } else {
                        self.xattrs.insert(ino, left)
                    };
                    ((MemFsModel { xattrs, ..self }).touched(normalized(path), caller.now), Ok(()))
                },
            }
        }
    }

    /// Removing a file, link or special node.
    pub open spec fn remove_file(self, path: Seq<char>) -> (MemFsModel, Result<(), SysErrNo>) {
        let name = normalized(path);
        if self.file_index(name) is None && !self.symlinks.contains_key(name)
            && !self.specials.contains_key(name) {
            (self, Err(SysErrNo::ENOENT))
        } else {
            (
                self.without_files(name).without_symlink(name).without_special(name).without_meta(
                    name,
                ),
                Ok(()),
            )
        }
    }

    /// Removing an empty directory.
    pub open spec fn remove_dir(self, path: Seq<char>) -> (MemFsModel, Result<(), SysErrNo>) {
        let name = normalized(path);
        if name == seq!['/'] {
            (self, Err(SysErrNo::EINVAL))
        } else if !self.has_dir(name) {
            (self, Err(SysErrNo::ENOENT))
        } else if self.has_entries(name) {
            (self, Err(SysErrNo::ENOTEMPTY))
        } else {
            (self.without_dir(name), Ok(()))
        }
    }

    /// The same system without a directory and what is recorded of it.
    pub open spec fn without_dir(self, name: Seq<char>) -> MemFsModel {
        (MemFsModel { dirs: without_text(self.dirs, name), ..self }).without_meta(name)
    }

    /// The same system with a directory and all below it under another name.
    pub open spec fn with_tree_moved(self, from: Seq<char>, to: Seq<char>) -> MemFsModel {
        MemFsModel {
            dirs: self.dirs.map_values(
                |d: Seq<char>|
                    if moves(from, d, true) {
                        moved_path(from, to, d)
                    } else {
                        d
                    },
            ),
            files: self.files.map_values(
                |f: FileModel|
                    if descends(from, f.name) {
                        FileModel { name: moved_path(from, to, f.name), ..f }
                    } else {
                        f
                    },
            ),
            specials: moved_keys(self.specials, listing(self.specials.dom()), from, to, false),
            symlinks: moved_keys(self.symlinks, listing(self.symlinks.dom()), from, to, false),
            metadata: moved_keys(self.metadata, listing(self.metadata.dom()), from, to, true),
            ..self
        }
    }

    /// What is recorded of a name, or what would be recorded of it anew.
    pub open spec fn meta_or_new(self, name: Seq<char>, mode: u32) -> MemNodeMetadata {
        if self.metadata.contains_key(name) {
            self.metadata[name]
        } else {
            self.allocated(MemNodeMetadata::plain(mode))
        }
    }

    /// Giving a node another name.
    pub open spec fn rename(self, old_path: Seq<char>, new_path: Seq<char>) -> (
        MemFsModel,
        Result<(), SysErrNo>,
    ) {
        let from = normalized(old_path);
        let to = normalized(new_path);
        if from == to {
            (self, Ok(()))
        } else if from == seq!['/'] || descends(from, to) {
            (self, Err(SysErrNo::EINVAL))
        } else if !self.has_dir(normalized(parent_of(to))) {
            (self, Err(SysErrNo::ENOENT))
        } else if self.has_dir(from) {
            self.rename_dir(from, to)
        } else {
            self.rename_node(from, to)
        }
    }

    /// Giving a directory another name; an empty directory there gives way.
    pub open spec fn rename_dir(self, from: Seq<char>, to: Seq<char>) -> (
        MemFsModel,
        Result<(), SysErrNo>,
    ) {
        if to == seq!['/'] {
            (self, Err(SysErrNo::EEXIST))
        } else if self.has_dir(to) && self.has_entries(to) {
            (self, Err(SysErrNo::ENOTEMPTY))
        } else if self.has_dir(to) {
            (self.without_dir(to).with_tree_moved(from, to), Ok(()))
        } else if self.has_node(to) {
            (self, Err(SysErrNo::ENOTDIR))
        } else {
            (self.with_tree_moved(from, to), Ok(()))
        }
    }

    /// Giving a node that is no directory another name; what had that name, if
    /// it is no directory, gives way.
    pub open spec fn rename_node(self, from: Seq<char>, to: Seq<char>) -> (
        MemFsModel,
        Result<(), SysErrNo>,
    ) {
        if self.specials.contains_key(from) {
            if self.has_dir(to) {
                (self, Err(SysErrNo::EISDIR))
            } else {
                let m = self.without_special(from).without_files(to).without_symlink(
                    to,
                ).without_special(to);
                let meta = m.meta_or_new(from, 0o666);
                (
                    (MemFsModel {
                        specials: m.specials.insert(to, self.specials[from]),
                        ..m.with_some_meta(from, MemNodeMetadata::plain(0o666)).without_meta(from)
                    }).with_meta(to, meta),
                    Ok(()),
                )
            }
        } else if self.symlinks.contains_key(from) {
            if self.has_dir(to) {
                (self, Err(SysErrNo::EISDIR))
            } else {
                let m = self.without_symlink(from).without_files(to).without_symlink(to);
                let meta = m.meta_or_new(from, 0o777);
                (
                    (MemFsModel {
                        symlinks: m.symlinks.insert(to, self.symlinks[from]),
                        ..m.with_some_meta(from, MemNodeMetadata::plain(0o777)).without_meta(from)
                    }).with_meta(to, meta),
                    Ok(()),
                )
            }
        } else if self.file_index(from) is None {
            (self, Err(SysErrNo::ENOENT))
        } else if self.has_dir(to) {
            (self, Err(SysErrNo::EISDIR))
        } else {
            let f = self.files[self.file_index(from)->0];
            let meta = self.meta_or_new(from, 0o666);
            let m = self.with_some_meta(from, MemNodeMetadata::plain(0o666));
            (
                m.without_files(from).without_files(to).without_symlink(to).without_special(
                    to,
                ).with_link(to, f.backing, f.link_key).without_meta(from).with_meta(to, meta),
                Ok(()),
            )
        }
    }

    /// The spare name number `attempt` beside a node.
    pub open spec fn spare_name(parent: Seq<char>, attempt: nat) -> Seq<char> {
        (if parent == seq!['/'] {
            "/.wll_rename_exchange_"@
        } else {
            parent + "/.wll_rename_exchange_"@
        }) + decimal(attempt)
    }

    /// Whether `attempt` is the first spare name beside a node that is free.
    pub open spec fn first_spare(self, parent: Seq<char>, attempt: nat) -> bool {
        &&& attempt < 32
        &&& !self.has_node(normalized(MemFsModel::spare_name(parent, attempt)))
        &&& forall|j: nat|
            j < attempt ==> self.has_node(normalized(#[trigger] MemFsModel::spare_name(parent, j)))
    }

    /// Swapping two nodes by way of a spare name.
    pub open spec fn exchange(self, old_path: Seq<char>, new_path: Seq<char>) -> (
        MemFsModel,
        Result<(), SysErrNo>,
    ) {
        let a = normalized(old_path);
        let b = normalized(new_path);
        if a == b {
            (self, Ok(()))
        } else if a == seq!['/'] || b == seq!['/'] {
            (self, Err(SysErrNo::EINVAL))
        } else if !self.has_node(a) || !self.has_node(b) {
            (self, Err(SysErrNo::ENOENT))
        } else if self.has_dir(a) && descends(a, b) {
            (self, Err(SysErrNo::EINVAL))
        } else if self.has_dir(b) && descends(b, a) {
            (self, Err(SysErrNo::EINVAL))
        } else if !(exists|attempt: nat| self.first_spare(parent_of(a), attempt)) {
            (self, Err(SysErrNo::EEXIST))
        } else {
            let attempt = choose|attempt: nat| self.first_spare(parent_of(a), attempt);
            self.exchange_by_way_of(a, b, MemFsModel::spare_name(parent_of(a), attempt))
        }
    }

    /// Swapping two nodes by way of a given name.
    pub open spec fn exchange_by_way_of(
        self,
        a: Seq<char>,
        b: Seq<char>,
        spare: Seq<char>,
    ) -> (MemFsModel, Result<(), SysErrNo>) {
        let (m1, r1) = self.rename(a, spare);
        if r1 is Err {
            (m1, r1)
        } else {
            let (m2, r2) = m1.rename(b, a);
            if r2 is Err {
                (m2.rename(spare, a).0, r2)
            } else {
                m2.rename(spare, b)
            }
        }
    }

    /// Giving a node that is no directory a second name.
    pub open spec fn link(self, old_path: Seq<char>, new_path: Seq<char>) -> (
        MemFsModel,
        Result<(), SysErrNo>,
    ) {
        let from = normalized(old_path);
        let to = normalized(new_path);
        if self.has_dir(from) {
            (self, Err(SysErrNo::EPERM))
        } else if self.has_node(to) {
            (self, Err(SysErrNo::EEXIST))
        } else if !self.has_dir(normalized(parent_of(to))) {
            (self, Err(SysErrNo::ENOENT))
        } else if self.file_index(from) is Some {
            let f = self.files[self.file_index(from)->0];
            let meta = self.meta_or_new(from, 0o666);
            (
                self.with_some_meta(from, MemNodeMetadata::plain(0o666)).with_link(
                    to,
                    f.backing,
                    f.link_key,
                ).with_meta(to, meta),
                Ok(()),
            )
        } else if self.symlinks.contains_key(from) {
            let meta = self.meta_or_new(from, 0o777);
            (
                (MemFsModel {
                    symlinks: self.symlinks.insert(to, self.symlinks[from]),
                    ..self.with_some_meta(from, MemNodeMetadata::plain(0o777))
                }).with_meta(to, meta),
                Ok(()),
            )
        } else if self.specials.contains_key(from) {
            let meta = self.meta_or_new(from, 0o666);
            (
                (MemFsModel {
                    specials: self.specials.insert(to, self.specials[from]),
                    ..self.with_some_meta(from, MemNodeMetadata::plain(0o666))
                }).with_meta(to, meta),
                Ok(()),
            )
        } else {
            (self, Err(SysErrNo::ENOENT))
        }
    }

    /// Writing into a file.
    pub open spec fn write_file_at(
        self,
        caller: &Caller,
        path: Seq<char>,
        offset: nat,
        buf: Seq<u8>,
    ) -> (MemFsModel, Result<usize, SysErrNo>) {
        let name = normalized(path);
        if self.file_index(name) is None {
            (self, Err(SysErrNo::ENOENT))
        } else if offset + buf.len() > MAX_FILE_OFFSET {
            (self, Err(SysErrNo::EFBIG))
        } else if buf.len() == 0 {
            (self, Ok(0))
        } else {
            let b = self.backing_of(name);
            (
                self.with_backing(
                    name,
                    BackingModel {
                        content: written(b.content, offset, buf),
                        times: b.times.modified(caller.now),
                    },
                ),
                Ok(buf.len() as usize),
            )
        }
    }

    /// Setting the length of a file.
    pub open spec fn truncate_file(self, caller: &Caller, path: Seq<char>, len: nat) -> (
        MemFsModel,
        Result<(), SysErrNo>,
    ) {
        let name = normalized(path);
        if self.file_index(name) is None {
            (self, Err(SysErrNo::ENOENT))
        } else {
            let b = self.backing_of(name);
            (
                self.with_backing(
                    name,
                    BackingModel {
                        content: resized(b.content, len),
                        times: b.times.modified(caller.now),
                    },
                ),
                Ok(()),
            )
        }
    }

    /// Setting the times of a file.
    pub open spec fn set_file_times(
        self,
        caller: &Caller,
        path: Seq<char>,
        atime: Option<(isize, isize)>,
        mtime: Option<(isize, isize)>,
    ) -> (MemFsModel, Result<(), SysErrNo>) {
        let name = normalized(path);
        if self.file_index(name) is None {
            (self, Err(SysErrNo::ENOENT))
        } else {
            let b = self.backing_of(name);
            (
                self.with_backing(
                    name,
                    BackingModel {
                        times: b.times.with_access_modify(atime, mtime, caller.now),
                        ..b
                    },
                ),
                Ok(()),
            )
        }
    }

    /// Setting the mode of a node.
    pub open spec fn set_mode(self, caller: &Caller, path: Seq<char>, mode: u32) -> (
        MemFsModel,
        Result<(), SysErrNo>,
    ) {
        let name = normalized(path);
        if !self.has_node(name) {
            (self, Err(SysErrNo::ENOENT))
        } else {
            let m = self.with_some_meta(name, MemNodeMetadata::plain(0o666));
            (
                m.with_meta(
                    name,
                    MemNodeMetadata { mode: mode & 0o7777, ..m.metadata[name] },
                ).touched(name, caller.now),
                Ok(()),
            )
        }
    }

    /// Setting the owner of a node.
    pub open spec fn set_owner(
        self,
        caller: &Caller,
        path: Seq<char>,
        uid: Option<u32>,
        gid: Option<u32>,
    ) -> (MemFsModel, Result<(), SysErrNo>) {
        let name = normalized(path);
        if !self.has_node(name) {
            (self, Err(SysErrNo::ENOENT))
        } else {
            let m = self.with_some_meta(name, MemNodeMetadata::plain(0o666));
            let was = m.metadata[name];
            let meta = MemNodeMetadata {
                mode: mode_after_chown(
                    was.mode,
                    self.file_index(name) is Some,
                    uid is Some || gid is Some,
                ),
                uid: if uid is Some { uid->0 } else { was.uid },
                gid: if gid is Some { gid->0 } else { was.gid },
                ..was
            };
            (m.with_meta(name, meta).touched(name, caller.now), Ok(()))
        }
    }

    /// Recording flags of all names of some contents, in their order.
    pub open spec fn with_flags(self, names: Seq<FileModel>, backing: int, flags: u32) -> MemFsModel
        decreases names.len(),
    {
        if names.len() == 0 {
            self
        } else {
            let before = self.with_flags(names.drop_last(), backing, flags);
            if names.last().backing == backing {
                before.with_flags_of(normalized(names.last().name), names.last().name, 0o666, flags)
            } else {
                before
            }
        }
    }

    /// Recording flags of one name.
    pub open spec fn with_flags_of(
        self,
        looked_up: Seq<char>,
        name: Seq<char>,
        mode: u32,
        flags: u32,
    ) -> MemFsModel {
        let meta = self.meta_or_new(looked_up, mode);
        self.with_some_meta(looked_up, MemNodeMetadata::plain(mode)).with_meta(
            name,
            MemNodeMetadata { flags, ..meta },
        )
    }

    /// Setting the flags of a node; a file's flags are those of all its names.
    pub open spec fn set_file_flags(self, path: Seq<char>, flags: u32) -> (
        MemFsModel,
        Result<(), SysErrNo>,
    ) {
        let name = normalized(path);
        if !self.has_node(name) {
            (self, Err(SysErrNo::ENOENT))
        } else if self.file_index(name) is Some {
            (
                self.with_flags(self.files, self.files[self.file_index(name)->0].backing, flags),
                Ok(()),
            )
        } else {
            let mode = if self.has_dir(name) {
                0o755u32
            } else if self.symlinks.contains_key(name) {
                0o777u32
            } else {
                0o666u32
            };
            (self.with_flags_of(name, name, mode, flags), Ok(()))
        }
    }

    /// The entries of a directory in order.
    pub open spec fn entries(self, dir: Seq<char>) -> Seq<DirEntryModel> {
        entries_sorted(
            children(dir, self.dirs, true) + children(
                dir,
                self.files.map_values(|f: FileModel| f.name),
                false,
            ) + children(dir, listing(self.symlinks.dom()), false) + children(
                dir,
                listing(self.specials.dom()),
                false,
            ),
        )
    }
}

} // verus!
