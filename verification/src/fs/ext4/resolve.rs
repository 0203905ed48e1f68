//! Symbolic links, listings and existence tests on an ext4 volume.
use vstd::prelude::*;
use vstd::utf8::{decode_utf8, valid_utf8};

use crate::bytes::{le_bytes, append_bytes};
use crate::errno::SysErrNo;
use crate::fs::ext4::types::{DiskInode, Ext4NodeKind};
use crate::fs::ext4::volume::{Ext4Names, Fault, Found, Load};
use crate::fs::path::{
    all_names, is_absolute, lemma_parts_are_names, lemma_parts_of_render, normalize_path,
    normalized, parent_of, parent_path, parts_of, path_parts, render, render_path,
    starts_with_slash,
};
use crate::text::{concat3, string_from_utf8, texts};

verus! {

/// How many symbolic links are followed on the way to a file.
pub const MAX_SYMLINK_FOLLOWS: usize = 40;

/// The size up to which the target of a symbolic link lies in the inode.
pub const INLINE_LINK_LIMIT: u64 = 60;

/// The bytes of the block words of an inode, in the order in which they are
/// stored.
pub open spec fn word_bytes(words: Seq<u32>) -> Seq<u8>
    decreases words.len(),
{
    if words.len() == 0 {
        Seq::empty()
    } else {
        word_bytes(words.drop_last()) + le_bytes(words.last() as nat, 4)
    }
}

proof fn lemma_word_bytes_len(words: Seq<u32>)
    ensures
        word_bytes(words).len() == 4 * words.len(),
    decreases words.len(),
{
    if words.len() > 0 {
        lemma_word_bytes_len(words.drop_last());
        lemma_le_bytes_len(words.last() as nat, 4);
    }
}

proof fn lemma_le_bytes_len(n: nat, k: nat)
    ensures
        le_bytes(n, k).len() == k,
    decreases k,
{
    if k > 0 {
        lemma_le_bytes_len(n / 256, (k - 1) as nat);
    }
}

fn push_word(out: &mut Vec<u8>, word: u32)
    ensures
        final(out)@ == old(out)@ + le_bytes(word as nat, 4),
{
    let ghost start = out@;
    let mut rest: u32 = word;
    let mut i: usize = 0;
    assert(le_bytes(word as nat, 4) =~= Seq::<u8>::empty() + le_bytes(rest as nat, 4));
    let ghost mut done = Seq::<u8>::empty();
    while i < 4
        invariant
            0 <= i <= 4,
            out@ == start + done,
            le_bytes(word as nat, 4) == done + le_bytes(rest as nat, (4 - i) as nat),
        decreases 4 - i,
    {
        proof {
            assert(le_bytes(rest as nat, (4 - i) as nat) == seq![(rest % 256) as u8] + le_bytes(
                (rest / 256) as nat,
                (3 - i) as nat,
            ));
            done = done.push((rest % 256) as u8);
            assert(le_bytes(word as nat, 4) =~= done + le_bytes((rest / 256) as nat, (3 - i) as nat));
        }
        out.push((rest % 256) as u8);
        assert(out@ =~= start + done);
        rest = rest / 256;
        i = i + 1;
    }
    assert(le_bytes(rest as nat, 0) =~= Seq::<u8>::empty());
    assert(out@ =~= start + le_bytes(word as nat, 4));
}

/// The target of a short symbolic link, which is kept in the block words of its
/// inode; `None` for a link whose target is kept in a block.
pub fn inline_link_target(inode: &DiskInode, words: &[u32]) -> (r: Option<Vec<u8>>)
    requires
        words@.len() == 15,
    ensures
        match r {
            Some(data) => inode.size <= INLINE_LINK_LIMIT && inode.blocks == 0 && data@
                == word_bytes(words@).take(inode.size as int),
            None => !(inode.size <= INLINE_LINK_LIMIT && inode.blocks == 0),
        },
{
    if inode.size > INLINE_LINK_LIMIT || inode.blocks != 0 {
        return None;
    }
    let mut data: Vec<u8> = Vec::new();
    let mut i: usize = 0;
    assert(words@.take(0) =~= Seq::<u32>::empty());
    while i < words.len()
        invariant
            0 <= i <= words@.len(),
            data@ == word_bytes(words@.take(i as int)),
        decreases words@.len() - i,
    {
        push_word(&mut data, words[i]);
        assert(words@.take(i + 1).drop_last() =~= words@.take(i as int));
        i = i + 1;
    }
    assert(words@.take(i as int) =~= words@);
    proof {
        lemma_word_bytes_len(words@);
    }
    data.truncate(inode.size as usize);
    assert(data@ =~= word_bytes(words@).take(inode.size as int));
    Some(data)
}

/// Where a link found at a path leads to, in normal form.
pub open spec fn link_target(link_path: Seq<char>, target: Seq<char>) -> Seq<char> {
    if is_absolute(target) {
        normalized(target)
    } else {
        normalized(parent_of(normalized(link_path)) + seq!['/'] + target)
    }
}

/// Where a link found at a path leads to, in normal form.
pub fn resolve_link_target(link_path: &str, target: &str) -> (r: String)
    ensures
        r@ == link_target(link_path@, target@),
{
    if starts_with_slash(target) {
        normalize_path(target)
    } else {
        proof {
            reveal_strlit("/");
            assert("/"@ =~= seq!['/']);
        }
        let norm = normalize_path(link_path);
        let dir = parent_path(norm.as_str());
        normalize_path(concat3(dir.as_str(), "/", target).as_str())
    }
}

/// A result of a lookup with the kind reduced to whether it is a directory.
pub open spec fn dir_flagged(r: Result<Found, Load>) -> Result<Option<(u32, bool)>, Load> {
    match r {
        Ok(Some((ino, kind))) => Ok(Some((ino, kind == Ext4NodeKind::Directory))),
        Ok(None) => Ok(None),
        Err(load) => Err(load),
    }
}

impl Ext4Names {
    /// What a path of a mounted volume leads to, or why it leads nowhere.
    pub open spec fn find_spec(&self, path: Seq<char>) -> Result<(u32, Ext4NodeKind), Fault> {
        if !self.mounted {
            Err(Fault::Sys(SysErrNo::ENOENT))
        } else {
            match self.lookup_spec(path) {
                Err(load) => Err(Fault::Need(load)),
                Ok(None) => Err(Fault::Sys(SysErrNo::ENOENT)),
                Ok(Some(found)) => Ok(found),
            }
        }
    }

    /// What a path of a mounted volume leads to, or why it leads nowhere.
    pub fn find(&self, path: &str) -> (r: Result<(u32, Ext4NodeKind), Fault>)
        requires
            self.wf(),
        ensures
            r == self.find_spec(path@),
    {
        if !self.mounted {
            return Err(Fault::Sys(SysErrNo::ENOENT));
        }
        match self.lookup(path) {
            Err(load) => Err(Fault::Need(load)),
            Ok(None) => Err(Fault::Sys(SysErrNo::ENOENT)),
            Ok(Some(found)) => Ok(found),
        }
    }

    /// Whether a volume is mounted.
    pub fn is_ext4_mounted(&self) -> (r: bool)
        ensures
            r == self.mounted,
    {
        self.mounted
    }

    /// What a path leads to: its inode and kind.
    pub fn lookup_kind(&mut self, path: &str) -> (r: Result<Found, Load>)
        requires
            old(self).wf(),
        ensures
            final(self).wf(),
            r == (if old(self).mounted { old(self).lookup_spec(path@) } else { Ok(None) }),
            old(self).mounted ==> final(self).path_remembered(old(self), path@),
            !old(self).mounted ==> *final(self) == *old(self),
    {
        if !self.mounted {
            return Ok(None);
        }
        self.resolve_existing(path)
    }

    /// What a path leads to: its inode, and whether it is a directory.
    pub fn lookup_path(&mut self, path: &str) -> (r: Result<Option<(u32, bool)>, Load>)
        requires
            old(self).wf(),
        ensures
            final(self).wf(),
            r == dir_flagged(
                if old(self).mounted {
                    old(self).lookup_spec(path@)
                } else {
                    Ok(None)
                },
            ),
            old(self).mounted ==> final(self).path_remembered(old(self), path@),
            !old(self).mounted ==> *final(self) == *old(self),
    {
        match self.lookup_kind(path) {
            Ok(Some((ino, kind))) => Ok(Some((ino, kind == Ext4NodeKind::Directory))),
            Ok(None) => Ok(None),
            Err(load) => Err(load),
        }
    }

    /// Whether a path is known to lead to something of a given kind.
    pub open spec fn leads_to(&self, path: Seq<char>, kind: Ext4NodeKind) -> bool {
        self.find_spec(path) is Ok && self.find_spec(path)->Ok_0.1 == kind
    }

    /// What has to be read before it can be said where a path leads.
    pub open spec fn wanted(&self, path: Seq<char>) -> Option<Load> {
        if self.mounted && self.lookup_spec(path) is Err {
            Some(self.lookup_spec(path)->Err_0)
        } else {
            None
        }
    }

    fn kind_at(&mut self, path: &str) -> (r: Result<Option<Ext4NodeKind>, Load>)
        requires
            old(self).wf(),
        ensures
            final(self).wf(),
            old(self).mounted ==> final(self).path_remembered(old(self), path@),
            !old(self).mounted ==> *final(self) == *old(self),
            match r {
                Ok(Some(kind)) => old(self).wanted(path@) is None && old(self).leads_to(path@, kind),
                Ok(None) => old(self).wanted(path@) is None && old(self).find_spec(path@) is Err,
                Err(load) => old(self).wanted(path@) == Some(load),
            },
    {
        match self.lookup_kind(path) {
            Ok(Some((_ino, kind))) => Ok(Some(kind)),
            Ok(None) => Ok(None),
            Err(load) => Err(load),
        }
    }

    /// Whether a path leads to a regular file.
    pub fn ext4_regular_file_exists(&mut self, path: &str) -> (r: Result<bool, Load>)
        requires
            old(self).wf(),
        ensures
            final(self).wf(),
            old(self).mounted ==> final(self).path_remembered(old(self), path@),
            !old(self).mounted ==> *final(self) == *old(self),
            match r {
                Ok(b) => old(self).wanted(path@) is None && b == old(self).leads_to(
                    path@,
                    Ext4NodeKind::Regular,
                ),
                Err(load) => old(self).wanted(path@) == Some(load),
            },
    {
        match self.kind_at(path) {
            Ok(Some(kind)) => Ok(kind == Ext4NodeKind::Regular),
            Ok(None) => Ok(false),
            Err(load) => Err(load),
        }
    }

    /// Whether a path leads to a regular file or a symbolic link.
    pub fn ext4_file_path_exists(&mut self, path: &str) -> (r: Result<bool, Load>)
        requires
            old(self).wf(),
        ensures
            final(self).wf(),
            old(self).mounted ==> final(self).path_remembered(old(self), path@),
            !old(self).mounted ==> *final(self) == *old(self),
            match r {
                Ok(b) => old(self).wanted(path@) is None && b == (old(self).leads_to(
                    path@,
                    Ext4NodeKind::Regular,
                ) || old(self).leads_to(path@, Ext4NodeKind::Symlink)),
                Err(load) => old(self).wanted(path@) == Some(load),
            },
    {
        match self.kind_at(path) {
            Ok(Some(kind)) => Ok(kind == Ext4NodeKind::Regular || kind == Ext4NodeKind::Symlink),
            Ok(None) => Ok(false),
            Err(load) => Err(load),
        }
    }

    /// Whether a path leads to a directory.
    pub fn ext4_dir_path_exists(&mut self, path: &str) -> (r: Result<bool, Load>)
        requires
            old(self).wf(),
        ensures
            final(self).wf(),
            old(self).mounted ==> final(self).path_remembered(old(self), path@),
            !old(self).mounted ==> *final(self) == *old(self),
            match r {
                Ok(b) => old(self).wanted(path@) is None && b == old(self).leads_to(
                    path@,
                    Ext4NodeKind::Directory,
                ),
                Err(load) => old(self).wanted(path@) == Some(load),
            },
    {
        match self.kind_at(path) {
            Ok(Some(kind)) => Ok(kind == Ext4NodeKind::Directory),
            Ok(None) => Ok(false),
            Err(load) => Err(load),
        }
    }

    /// The target of the symbolic link at a path.
    pub open spec fn readlink_spec(&self, path: Seq<char>) -> Result<Seq<char>, Fault> {
        match self.find_spec(path) {
            Err(f) => Err(f),
            Ok((ino, kind)) => if kind != Ext4NodeKind::Symlink {
                Err(Fault::Sys(SysErrNo::EINVAL))
            } else if !self.links@.contains_key(ino as u128) {
                Err(Fault::Need(Load::Link(ino)))
            } else if !valid_utf8(self.links@[ino as u128]@) {
                Err(Fault::Sys(SysErrNo::EINVAL))
            } else {
                Ok(decode_utf8(self.links@[ino as u128]@))
            },
        }
    }

    /// The target of the symbolic link at a path.
    pub fn readlink_ext4(&self, path: &str) -> (r: Result<String, Fault>)
        requires
            self.wf(),
        ensures
            match r {
                Ok(s) => self.readlink_spec(path@) == Ok::<Seq<char>, Fault>(s@),
                Err(f) => self.readlink_spec(path@) == Err::<Seq<char>, Fault>(f),
            },
    {
        let (ino, kind) = match self.find(path) {
            Ok(found) => found,
            Err(f) => {
                return Err(f);
            },
        };
        if kind != Ext4NodeKind::Symlink {
            return Err(Fault::Sys(SysErrNo::EINVAL));
        }
        match self.links.get(ino as u128) {
            None => Err(Fault::Need(Load::Link(ino))),
            Some(data) => {
                let mut copy: Vec<u8> = Vec::new();
                append_bytes(&mut copy, data.as_slice());
                assert(copy@ =~= data@);
                match string_from_utf8(copy) {
                    Some(s) => Ok(s),
                    None => Err(Fault::Sys(SysErrNo::EINVAL)),
                }
            },
        }
    }

    /// What names lead to once links are followed: `done` has been gone through
    /// already, over so many links.
    pub open spec fn follow(
        &self,
        pending: Seq<Seq<char>>,
        done: Seq<Seq<char>>,
        followed: nat,
    ) -> Result<Seq<Seq<char>>, Fault>
        decreases MAX_SYMLINK_FOLLOWS + 1 - followed, pending.len(),
    {
        if pending.len() == 0 {
            Ok(done)
        } else {
            let here = done.push(pending[0]);
            let candidate = render(true, here);
            match self.find_spec(candidate) {
                Err(f) => Err(f),
                Ok((_, kind)) => if kind == Ext4NodeKind::Symlink {
                    if followed >= MAX_SYMLINK_FOLLOWS {
                        Err(Fault::Sys(SysErrNo::ELOOP))
                    } else {
                        match self.readlink_spec(candidate) {
                            Err(f) => Err(f),
                            Ok(target) => self.follow(
                                parts_of(link_target(candidate, target)) + pending.drop_first(),
                                Seq::empty(),
                                followed + 1,
                            ),
                        }
                    }
                } else if pending.len() > 1 && kind != Ext4NodeKind::Directory {
                    Err(Fault::Sys(SysErrNo::ENOTDIR))
                } else {
                    self.follow(pending.drop_first(), here, followed)
                },
            }
        }
    }

    /// The path without symbolic links that a path stands for.
    pub open spec fn resolved_links(&self, path: Seq<char>) -> Result<Seq<char>, Fault> {
        match self.follow(parts_of(normalized(path)), Seq::empty(), 0) {
            Ok(names) => Ok(render(true, names)),
            Err(f) => Err(f),
        }
    }

    /// The path without symbolic links that a path stands for.
    pub fn resolve_symlinks(&self, path: &str) -> (r: Result<String, Fault>)
        requires
            self.wf(),
        ensures
            match r {
                Ok(s) => self.resolved_links(path@) == Ok::<Seq<char>, Fault>(s@),
                Err(f) => self.resolved_links(path@) == Err::<Seq<char>, Fault>(f),
            },
    {
        let norm = normalize_path(path);
        let mut pending = path_parts(norm.as_str());
        let mut next: usize = 0;
        let mut done: Vec<String> = Vec::new();
        let mut followed: usize = 0;
        let ghost goal = self.follow(texts(pending@), Seq::empty(), 0);
        assert(texts(pending@).skip(0) =~= texts(pending@));
        assert(texts(done@) =~= Seq::empty());
        while next < pending.len()
            invariant
                self.wf(),
                0 <= next <= pending@.len(),
                followed <= MAX_SYMLINK_FOLLOWS,
                goal == self.follow(parts_of(normalized(path@)), Seq::empty(), 0),
                goal == self.follow(texts(pending@).skip(next as int), texts(done@), followed as nat),
            decreases MAX_SYMLINK_FOLLOWS - followed, pending@.len() - next,
        {
            let ghost todo = texts(pending@).skip(next as int);
            let ghost before = texts(done@);
            let component: String = pending[next].clone();
            done.push(component);
            assert(texts(done@) =~= before.push(todo[0]));
            let candidate = render_path(true, &done);
            let kind = match self.find(candidate.as_str()) {
                Ok((_ino, kind)) => kind,
                Err(f) => {
                    return Err(f);
                },
            };
            if kind == Ext4NodeKind::Symlink {
                if followed >= MAX_SYMLINK_FOLLOWS {
                    return Err(Fault::Sys(SysErrNo::ELOOP));
                }
                let target = match self.readlink_ext4(candidate.as_str()) {
                    Ok(target) => target,
                    Err(f) => {
                        return Err(f);
                    },
                };
                let target_path = resolve_link_target(candidate.as_str(), target.as_str());
                let mut parts = path_parts(target_path.as_str());
                let ghost lead = texts(parts@);
                let ghost all = texts(pending@);
                let mut i: usize = next + 1;
                assert(all.skip(next as int).drop_first() =~= all.skip(next + 1));
                assert(lead + all.subrange(next + 1, i as int) =~= lead);
                while i < pending.len()
                    invariant
                        next < i <= pending@.len(),
                        all == texts(pending@),
                        texts(parts@) == lead + all.subrange(next + 1, i as int),
                    decreases pending@.len() - i,
                {
                    let ghost had = texts(parts@);
                    let part: String = pending[i].clone();
                    parts.push(part);
                    assert(texts(parts@) =~= had.push(all[i as int]));
                    assert(lead + all.subrange(next + 1, i + 1) =~= had.push(all[i as int]));
                    i = i + 1;
                }
                assert(lead + all.subrange(next + 1, i as int) =~= lead + todo.drop_first());
                pending = parts;
                assert(texts(pending@).skip(0) =~= texts(pending@));
                done = Vec::new();
                assert(texts(done@) =~= Seq::empty());
                next = 0;
                followed = followed + 1;
            } else {
                if next + 1 < pending.len() && kind != Ext4NodeKind::Directory {
                    return Err(Fault::Sys(SysErrNo::ENOTDIR));
                }
                assert(todo.drop_first() =~= texts(pending@).skip(next + 1));
                next = next + 1;
            }
        }
        Ok(render_path(true, &done))
    }

    /// Each way from the root along these names leads to something that is no
    /// symbolic link, and to a directory as long as names follow.
    pub open spec fn free_of_links(&self, names: Seq<Seq<char>>, open_end: bool) -> bool {
        forall|i: int|
            0 < i <= names.len() ==> {
                let found = #[trigger] self.find_spec(render(true, names.take(i)));
                found is Ok && found->Ok_0.1 != Ext4NodeKind::Symlink && (i < names.len()
                    || open_end ==> found->Ok_0.1 == Ext4NodeKind::Directory)
            }
    }

    proof fn lemma_follow_frees(
        &self,
        pending: Seq<Seq<char>>,
        done: Seq<Seq<char>>,
        followed: nat,
    )
        requires
            all_names(pending),
            all_names(done),
            self.free_of_links(done, pending.len() > 0),
            self.follow(pending, done, followed) is Ok,
        ensures
            self.free_of_links(self.follow(pending, done, followed)->Ok_0, false),
            all_names(self.follow(pending, done, followed)->Ok_0),
        decreases MAX_SYMLINK_FOLLOWS + 1 - followed, pending.len(),
    {
        if pending.len() > 0 {
            let here = done.push(pending[0]);
            let candidate = render(true, here);
            let kind = self.find_spec(candidate)->Ok_0.1;
            let rest = pending.drop_first();
            assert(all_names(rest)) by {
                assert forall|i: int| 0 <= i < rest.len() implies crate::fs::path::is_plain(
                    #[trigger] rest[i],
                ) && !rest[i].contains('/') by {
                    assert(rest[i] == pending[i + 1]);
                }
            }
            if kind == Ext4NodeKind::Symlink {
                let target = self.readlink_spec(candidate)->Ok_0;
                let lead = parts_of(link_target(candidate, target));
                lemma_parts_are_names(link_target(candidate, target));
                let all = lead + rest;
                assert(all_names(all)) by {
                    assert forall|i: int| 0 <= i < all.len() implies crate::fs::path::is_plain(
                        #[trigger] all[i],
                    ) && !all[i].contains('/') by {
                        if i < lead.len() {
                            assert(all[i] == lead[i]);
                        } else {
                            assert(all[i] == rest[i - lead.len()]);
                        }
                    }
                }
                self.lemma_follow_frees(all, Seq::empty(), followed + 1);
            } else {
                assert(all_names(here)) by {
                    assert(here.last() == pending[0]);
                    assert forall|i: int| 0 <= i < here.len() implies crate::fs::path::is_plain(
                        #[trigger] here[i],
                    ) && !here[i].contains('/') by {
                        if i < done.len() {
                            assert(here[i] == done[i]);
                        }
                    }
                }
                assert(self.free_of_links(here, rest.len() > 0)) by {
                    assert forall|i: int| 0 < i <= here.len() implies {
                        let found = #[trigger] self.find_spec(render(true, here.take(i)));
                        found is Ok && found->Ok_0.1 != Ext4NodeKind::Symlink && (i < here.len()
                            || rest.len() > 0 ==> found->Ok_0.1 == Ext4NodeKind::Directory)
                    } by {
                        if i < here.len() {
                            assert(here.take(i) =~= done.take(i));
                            assert(self.find_spec(render(true, done.take(i))) is Ok);
                        } else {
                            assert(here.take(i) =~= here);
                        }
                    }
                }
                self.lemma_follow_frees(rest, here, followed);
            }
        }
    }

    proof fn lemma_follow_plain(&self, names: Seq<Seq<char>>, k: int)
        requires
            self.free_of_links(names, false),
            0 <= k <= names.len(),
        ensures
            self.follow(names.skip(k), names.take(k), 0) == Ok::<Seq<Seq<char>>, Fault>(names),
        decreases names.len() - k,
    {
        if k == names.len() {
            assert(names.take(k) =~= names);
            assert(names.skip(k) =~= Seq::empty());
        } else {
            assert(names.take(k).push(names.skip(k)[0]) =~= names.take(k + 1));
            assert(names.skip(k).drop_first() =~= names.skip(k + 1));
            assert(self.find_spec(render(true, names.take(k + 1))) is Ok);
            self.lemma_follow_plain(names, k + 1);
        }
    }

    /// A path whose links have been followed goes through directories only and
    /// leads to something that is no symbolic link.
    pub proof fn resolved_path_has_no_links(&self, path: Seq<char>)
        requires
            self.resolved_links(path) is Ok,
        ensures
            exists|names: Seq<Seq<char>>|
                all_names(names) && self.free_of_links(names, false) && self.resolved_links(path)
                    == Ok::<Seq<char>, Fault>(render(true, names)),
    {
        lemma_parts_are_names(normalized(path));
        self.lemma_follow_frees(parts_of(normalized(path)), Seq::empty(), 0);
        let names = self.follow(parts_of(normalized(path)), Seq::empty(), 0)->Ok_0;
        assert(all_names(names) && self.free_of_links(names, false));
    }

    /// Following the links of a path whose links have been followed changes
    /// nothing.
    pub proof fn following_links_twice(&self, path: Seq<char>)
        requires
            self.resolved_links(path) is Ok,
        ensures
            self.resolved_links(self.resolved_links(path)->Ok_0) == self.resolved_links(path),
    {
        lemma_parts_are_names(normalized(path));
        self.lemma_follow_frees(parts_of(normalized(path)), Seq::empty(), 0);
        let names = self.follow(parts_of(normalized(path)), Seq::empty(), 0)->Ok_0;
        lemma_parts_of_render(true, names);
        self.lemma_follow_plain(names, 0);
        assert(names.skip(0) =~= names);
        assert(names.take(0) =~= Seq::empty());
    }
}

} // verus!
