//! The tree of names: what lies where, what is mounted, and which names have
//! been taken away.
use vstd::prelude::*;

use crate::errno::SysErrNo;
use crate::fs::block_dev::device::{BlockRange, RawBlockDevice};
use crate::fs::ext4::types::Ext4NodeKind;
use crate::fs::ext4::volume::Fault;
use crate::fs::fd::descriptor::Files;
use crate::fs::path::{
    at_or_below, is_at_or_below, local_device_path, local_part, normalize_is_idempotent,
    normalize_path, normalized, parent_of, parent_path,
};
use crate::fs::vfat::{VfatMetadata, VfatVolume};
use crate::text::{concat, has_prefix, str_eq, strip_prefix, to_chars};
use crate::textmap::TextMap;

verus! {

/// What serves the names below a mount point.
pub enum MountBackend {
    Root,
    Tmpfs,
    Vfat { volume: VfatVolume, range: BlockRange },
}

/// Something mounted: from where, where the task sees it and where it lies in
/// the tree, what kind of file system it is, and what serves it.
pub struct MountEntry {
    pub source: String,
    pub logical_target: String,
    pub host_target: String,
    pub fstype: String,
    pub backend: MountBackend,
}

/// The tree of names.
pub struct Vfs {
    pub files: Files,
    pub whiteouts: TextMap<()>,
    pub mounts: Vec<MountEntry>,
}

/// Whether a path is a mount point or lies below it. Only the root itself
/// counts as below the root.
pub open spec fn under(path: Seq<char>, parent: Seq<char>) -> bool {
    let p = normalized(path);
    let d = normalized(parent);
    p == d || (d != seq!['/'] && at_or_below(p, d))
}

/// Whether a path is a mount point or lies below it.
pub fn path_is_under(path: &str, parent: &str) -> (r: bool)
    ensures
        r == under(path@, parent@),
{
    proof {
        reveal_strlit("/");
        assert("/"@ =~= seq!['/']);
    }
    let p = normalize_path(path);
    let d = normalize_path(parent);
    str_eq(p.as_str(), d.as_str()) || (!str_eq(d.as_str(), "/") && is_at_or_below(
        p.as_str(),
        d.as_str(),
    ))
}

/// The directory that holds a path.
pub open spec fn holder(path: Seq<char>) -> Seq<char> {
    parent_of(normalized(path))
}

/// The directory that holds a path.
pub fn holder_path(path: &str) -> (r: String)
    ensures
        r@ == holder(path@),
{
    let norm = normalize_path(path);
    parent_path(norm.as_str())
}

/// What a path below a mount point is called inside what is mounted there.
pub open spec fn inside(norm: Seq<char>, target: Seq<char>) -> Seq<char> {
    let rest = if norm.len() <= target.len() {
        Seq::empty()
    } else {
        norm.skip(target.len() as int + 1)
    };
    if rest.len() == 0 {
        seq!['/']
    } else {
        normalized(seq!['/'] + rest)
    }
}

impl VfatVolume {
    /// What is told of a path of the volume.
    pub open spec fn told<D: RawBlockDevice>(&self, dev: &D, range: &BlockRange, path: Seq<char>) -> Result<
        VfatMetadata,
        SysErrNo,
    > {
        if normalized(path) == seq!['/'] {
            Ok(VfatMetadata { is_dir: true, readonly: true, size: 0 })
        } else {
            match self.found(dev, range, path) {
                Err(e) => Err(e),
                Ok(entry) => Ok(
                    VfatMetadata {
                        is_dir: entry.is_dir,
                        readonly: entry.readonly,
                        size: entry.size,
                    },
                ),
            }
        }
    }
}

/// A failure that is an error, not something to read first.
pub open spec fn plainly<T>(r: Result<T, SysErrNo>) -> Result<T, Fault> {
    match r {
        Ok(v) => Ok(v),
        Err(e) => Err(Fault::Sys(e)),
    }
}

/// A failure that is an error, not something to read first.
pub fn as_fault<T>(r: Result<T, SysErrNo>) -> (out: Result<T, Fault>)
    ensures
        out == plainly(r),
{
    match r {
        Ok(v) => Ok(v),
        Err(e) => Err(Fault::Sys(e)),
    }
}

impl MountEntry {
    /// Mount points are in normal form and what is mounted is in order.
    pub open spec fn wf(&self) -> bool {
        &&& normalized(self.host_target@) == self.host_target@
        &&& match self.backend {
            MountBackend::Vfat { volume, .. } => volume.wf(),
            _ => true,
        }
    }
}

impl Vfs {
    /// All parts are in order.
    pub open spec fn wf(&self) -> bool {
        &&& self.files.wf()
        &&& self.whiteouts.wf()
        &&& forall|i: int| 0 <= i < self.mounts@.len() ==> (#[trigger] self.mounts@[i]).wf()
    }

    /// Empty file systems, nothing mounted and nothing taken away.
    pub fn new() -> (r: Self)
        ensures
            r.wf(),
            r.files.is_blank(),
            r.mounts@ == Seq::<MountEntry>::empty(),
            r.whiteouts@ == Map::<Seq<char>, ()>::empty(),
    {
        Vfs { files: Files::new(), whiteouts: TextMap::new(), mounts: Vec::new() }
    }

    /// Whether a name has been taken away.
    pub open spec fn removed(&self, path: Seq<char>) -> bool {
        self.whiteouts@.contains_key(normalized(path))
    }

    /// Whether a name has been taken away.
    pub fn is_removed(&self, name: &str) -> (r: bool)
        requires
            self.wf(),
        ensures
            r == self.removed(name@),
    {
        let norm = normalize_path(name);
        self.whiteouts.contains_key(norm.as_str())
    }

    /// The same tree in which a name may be used again.
    pub open spec fn shown_again(&self, was: &Vfs, name: Seq<char>) -> bool {
        &&& *self == (Vfs { whiteouts: self.whiteouts, ..*was })
        &&& self.whiteouts@ == was.whiteouts@.remove(normalized(name))
    }

    /// Lets a name be used again.
    pub fn clear_whiteout(&mut self, name: &str)
        requires
            old(self).wf(),
        ensures
            final(self).wf(),
            final(self).shown_again(old(self), name@),
    {
        let norm = normalize_path(name);
        let _ = self.whiteouts.remove(norm.as_str());
    }

    /// The same tree in which a name has been taken away.
    pub open spec fn hidden_now(&self, was: &Vfs, name: Seq<char>) -> bool {
        &&& *self == (Vfs { whiteouts: self.whiteouts, ..*was })
        &&& self.whiteouts@ == was.whiteouts@.insert(normalized(name), ())
    }

    /// Notes that a name has been taken away.
    pub fn mark_whiteout(&mut self, name: &str)
        requires
            old(self).wf(),
        ensures
            final(self).wf(),
            final(self).hidden_now(old(self), name@),
    {
        let norm = normalize_path(name);
        self.whiteouts.insert(norm, ());
    }

    /// Whether a path lies in a file system that is kept in memory only.
    pub open spec fn in_tmpfs(&self, path: Seq<char>) -> bool {
        exists|i: int|
            0 <= i < self.mounts@.len() && (#[trigger] self.mounts@[i]).backend is Tmpfs && under(
                path,
                self.mounts@[i].host_target@,
            )
    }

    /// Whether a path lies in a file system that is kept in memory only.
    pub fn is_tmpfs_path(&self, path: &str) -> (r: bool)
        ensures
            r == self.in_tmpfs(path@),
    {
        let mut i: usize = 0;
        while i < self.mounts.len()
            invariant
                0 <= i <= self.mounts@.len(),
                forall|j: int|
                    0 <= j < i ==> !((#[trigger] self.mounts@[j]).backend is Tmpfs && under(
                        path@,
                        self.mounts@[j].host_target@,
                    )),
            decreases self.mounts@.len() - i,
        {
            let here = match &self.mounts[i].backend {
                MountBackend::Tmpfs => path_is_under(path, self.mounts[i].host_target.as_str()),
                _ => false,
            };
            if here {
                assert(self.mounts@[i as int].backend is Tmpfs);
                return true;
            }
            i = i + 1;
        }
        false
    }

    /// Whether a mount serves a path from a FAT volume.
    pub open spec fn serves_fat(&self, i: int, path: Seq<char>) -> bool {
        self.mounts@[i].backend is Vfat && under(path, self.mounts@[i].host_target@)
    }

    /// Of the first `n` mounts the one that serves a path from a FAT volume:
    /// the last of those with the longest mount point.
    pub open spec fn fat_mount(&self, path: Seq<char>, n: nat) -> Option<int>
        decreases n,
    {
        if n == 0 {
            None
        } else {
            let best = self.fat_mount(path, (n - 1) as nat);
            if self.serves_fat(n - 1, path) && (best is None || self.mounts@[best->0].host_target@.len()
                <= self.mounts@[n - 1].host_target@.len()) {
                Some(n - 1)
            } else {
                best
            }
        }
    }

    /// The FAT volume that serves a path, if one does, and what the path is
    /// called in it.
    pub open spec fn fat_at(&self, path: Seq<char>) -> Option<(VfatVolume, BlockRange, Seq<char>)> {
        match self.fat_mount(path, self.mounts@.len()) {
            None => None,
            Some(i) => match self.mounts@[i].backend {
                MountBackend::Vfat { volume, range } => Some(
                    (volume, range, inside(normalized(path), self.mounts@[i].host_target@)),
                ),
                _ => None,
            },
        }
    }

    proof fn lemma_fat_mount(&self, path: Seq<char>, n: nat)
        requires
            n <= self.mounts@.len(),
        ensures
            match self.fat_mount(path, n) {
                Some(i) => 0 <= i < n && self.serves_fat(i, path),
                None => true,
            },
        decreases n,
    {
        if n > 0 {
            self.lemma_fat_mount(path, (n - 1) as nat);
        }
    }

    /// The FAT volume that serves a path, if one does, and what the path is
    /// called in it.
    pub fn mounted_vfat_backend(&self, path: &str) -> (r: Option<(&VfatVolume, &BlockRange, String)>)
        requires
            self.wf(),
        ensures
            match r {
                Some((volume, range, inner)) => self.fat_at(path@) == Some(
                    (*volume, *range, inner@),
                ) && volume.wf(),
                None => self.fat_at(path@) is None,
            },
    {
        let mut best: Option<usize> = None;
        let mut best_len: usize = 0;
        let mut i: usize = 0;
        while i < self.mounts.len()
            invariant
                0 <= i <= self.mounts@.len(),
                match best {
                    Some(b) => self.fat_mount(path@, i as nat) == Some(b as int) && b < i && best_len
                        == self.mounts@[b as int].host_target@.len(),
                    None => self.fat_mount(path@, i as nat) is None,
                },
            decreases self.mounts@.len() - i,
        {
            let entry = &self.mounts[i];
            let here = match &entry.backend {
                MountBackend::Vfat { .. } => path_is_under(path, entry.host_target.as_str()),
                _ => false,
            };
            if here {
                let len: usize = to_chars(entry.host_target.as_str()).len();
                if best.is_none() || best_len <= len {
                    best = Some(i);
                    best_len = len;
                }
            }
            i = i + 1;
        }
        let at: usize = match best {
            None => {
                return None;
            },
            Some(at) => at,
        };
        proof {
            self.lemma_fat_mount(path@, self.mounts@.len());
            assert(self.mounts@[at as int].wf());
            reveal_strlit("/");
            assert("/"@ =~= seq!['/']);
            normalize_is_idempotent(path@);
        }
        let entry = &self.mounts[at];
        let norm = normalize_path(path);
        let ghost host = entry.host_target@;
        proof {
            assert(under(path@, host));
            if norm@ != host {
                let front = host.push('/');
                assert(has_prefix(norm@, front));
                assert(norm@.take(host.len() as int) =~= host) by {
                    assert(norm@.take(front.len() as int).take(host.len() as int) =~= host);
                    assert(norm@.take(front.len() as int).take(host.len() as int) =~= norm@.take(
                        host.len() as int,
                    ));
                }
                assert(norm@[host.len() as int] == '/') by {
                    assert(norm@.take(front.len() as int)[host.len() as int] == front[host.len() as int]);
                }
            } else {
                assert(norm@.take(host.len() as int) =~= host);
            }
        }
        let inner = match strip_prefix(norm.as_str(), entry.host_target.as_str()) {
            None => "/".to_owned(),
            Some(tail) => match strip_prefix(tail.as_str(), "/") {
                None => {
                    assert(norm@.len() <= host.len()) by {
                        if norm@.len() > host.len() {
                            assert(tail@[0] == '/');
                            assert(tail@.take(1) =~= "/"@);
                        }
                    }
                    "/".to_owned()
                },
                Some(rest) => {
                    assert(rest@ =~= norm@.skip(entry.host_target@.len() as int + 1));
                    if rest.as_str().is_empty() {
                        "/".to_owned()
                    } else {
                        normalize_path(concat("/", rest.as_str()).as_str())
                    }
                },
            },
        };
        assert(inner@ == inside(norm@, host)) by {
            assert(seq!['/'] + norm@.skip(host.len() as int + 1) =~= "/"@ + norm@.skip(
                host.len() as int + 1,
            ));
        }
        match &entry.backend {
            MountBackend::Vfat { volume, range } => Some((volume, range, inner)),
            _ => None,
        }
    }

    /// What a FAT volume tells of a path, if one serves it.
    pub open spec fn fat_told<D: RawBlockDevice>(&self, dev: &D, path: Seq<char>) -> Option<
        Result<VfatMetadata, SysErrNo>,
    > {
        match self.fat_at(path) {
            None => None,
            Some((volume, range, inner)) => Some(volume.told(dev, &range, inner)),
        }
    }

    /// What a FAT volume tells of a path, if one serves it.
    pub fn vfat_metadata_for_path<D: RawBlockDevice>(&self, dev: &D, path: &str) -> (r: Option<
        Result<VfatMetadata, SysErrNo>,
    >)
        requires
            self.wf(),
        ensures
            r == self.fat_told(dev, path@),
    {
        match self.mounted_vfat_backend(path) {
            None => None,
            Some((volume, range, inner)) => Some(volume.metadata(dev, range, inner.as_str())),
        }
    }

    /// What kind of node of the ext4 volume a path leads to, if any.
    pub open spec fn kind_at(&self, path: Seq<char>) -> Result<Option<Ext4NodeKind>, Fault> {
        if !self.files.vol.names.mounted {
            Ok(None)
        } else {
            match self.files.vol.names.lookup_spec(path) {
                Err(load) => Err(Fault::Need(load)),
                Ok(None) => Ok(None),
                Ok(Some((_, kind))) => Ok(Some(kind)),
            }
        }
    }

    /// What kind of node of the ext4 volume a path leads to, if any.
    pub fn ext4_kind(&self, path: &str) -> (r: Result<Option<Ext4NodeKind>, Fault>)
        requires
            self.wf(),
        ensures
            r == self.kind_at(path@),
    {
        if !self.files.vol.names.mounted {
            return Ok(None);
        }
        match self.files.vol.names.lookup(path) {
            Err(load) => Err(Fault::Need(load)),
            Ok(None) => Ok(None),
            Ok(Some((_ino, kind))) => Ok(Some(kind)),
        }
    }

    /// Whether a path leads to a directory of the ext4 volume.
    pub open spec fn ext4_dir_at(&self, path: Seq<char>) -> Result<bool, Fault> {
        match self.kind_at(path) {
            Err(f) => Err(f),
            Ok(kind) => Ok(kind == Some(Ext4NodeKind::Directory)),
        }
    }

    /// Whether a path leads to a directory of the ext4 volume.
    pub fn ext4_has_dir(&self, path: &str) -> (r: Result<bool, Fault>)
        requires
            self.wf(),
        ensures
            r == self.ext4_dir_at(path@),
    {
        match self.ext4_kind(path) {
            Err(f) => Err(f),
            Ok(Some(kind)) => Ok(kind == Ext4NodeKind::Directory),
            Ok(None) => Ok(false),
        }
    }

    /// Whether a path leads to a regular file or link of the ext4 volume.
    pub open spec fn ext4_file_at(&self, path: Seq<char>) -> Result<bool, Fault> {
        match self.kind_at(path) {
            Err(f) => Err(f),
            Ok(kind) => Ok(
                kind == Some(Ext4NodeKind::Regular) || kind == Some(Ext4NodeKind::Symlink),
            ),
        }
    }

    /// Whether a path leads to a regular file or link of the ext4 volume.
    pub fn ext4_has_file(&self, path: &str) -> (r: Result<bool, Fault>)
        requires
            self.wf(),
        ensures
            r == self.ext4_file_at(path@),
    {
        match self.ext4_kind(path) {
            Err(f) => Err(f),
            Ok(Some(kind)) => Ok(kind == Ext4NodeKind::Regular || kind == Ext4NodeKind::Symlink),
            Ok(None) => Ok(false),
        }
    }

    /// Whether a path leads to something of the ext4 volume that is no
    /// directory.
    pub open spec fn ext4_other_at(&self, path: Seq<char>) -> Result<bool, Fault> {
        match self.kind_at(path) {
            Err(f) => Err(f),
            Ok(kind) => Ok(kind is Some && kind->0 != Ext4NodeKind::Directory),
        }
    }

    /// Whether a path leads to something of the ext4 volume that is no
    /// directory.
    pub fn ext4_has_other(&self, path: &str) -> (r: Result<bool, Fault>)
        requires
            self.wf(),
        ensures
            r == self.ext4_other_at(path@),
    {
        match self.ext4_kind(path) {
            Err(f) => Err(f),
            Ok(Some(kind)) => Ok(kind != Ext4NodeKind::Directory),
            Ok(None) => Ok(false),
        }
    }

    /// Whether a name is an in-memory file, link or special node.
    pub open spec fn mem_other_at(&self, path: Seq<char>) -> bool {
        let m = self.files.mem@;
        let n = normalized(path);
        m.file_index(n) is Some || m.symlinks.contains_key(n) || m.specials.contains_key(n)
    }

    /// Whether a name is an in-memory file, link or special node.
    pub fn mem_has_other(&self, path: &str) -> (r: bool)
        requires
            self.wf(),
        ensures
            r == self.mem_other_at(path@),
    {
        self.files.mem.get_file(path).is_some() || self.files.mem.get_symlink(path).is_some()
            || self.files.mem.get_special(path).is_some()
    }

    /// The device numbers of a path.
    pub open spec fn numbers_at(&self, path: Seq<char>) -> Option<(u32, u32)> {
        self.files.blocks.numbers_spec(local_part(path))
    }

    /// The device numbers of a path.
    pub fn device_numbers(&self, path: &str) -> (r: Option<(u32, u32)>)
        ensures
            r == self.numbers_at(path@),
    {
        let local = local_device_path(path);
        self.files.blocks.device_numbers_for_path(local.as_str())
    }

    /// Whether a path is known to be something else than a directory.
    pub open spec fn non_dir_at<D: RawBlockDevice>(&self, dev: &D, path: Seq<char>) -> Result<
        bool,
        Fault,
    > {
        if self.removed(path) {
            Ok(false)
        } else {
            match self.fat_told(dev, path) {
                Some(told) => Ok(told is Ok && !told->Ok_0.is_dir),
                None => if self.mem_other_at(path) {
                    Ok(true)
                } else if self.files.mem@.has_dir(normalized(path)) || self.in_tmpfs(path) {
                    Ok(false)
                } else {
                    self.ext4_other_at(path)
                },
            }
        }
    }

    /// Whether a path is known to be something else than a directory.
    pub fn path_exists_non_dir<D: RawBlockDevice>(&self, dev: &D, path: &str) -> (r: Result<
        bool,
        Fault,
    >)
        requires
            self.wf(),
        ensures
            r == self.non_dir_at(dev, path@),
    {
        if self.is_removed(path) {
            return Ok(false);
        }
        match self.vfat_metadata_for_path(dev, path) {
            Some(Ok(meta)) => {
                return Ok(!meta.is_dir);
            },
            Some(Err(_)) => {
                return Ok(false);
            },
            None => {},
        }
        if self.mem_has_other(path) {
            return Ok(true);
        }
        if self.files.mem.is_dir(path) || self.is_tmpfs_path(path) {
            return Ok(false);
        }
        self.ext4_has_other(path)
    }

    /// Why a path leads nowhere: its directory is none, or it is just missing.
    pub open spec fn missing_at<D: RawBlockDevice>(&self, dev: &D, path: Seq<char>) -> Fault {
        if holder(path) == normalized(path) {
            Fault::Sys(SysErrNo::ENOENT)
        } else {
            match self.non_dir_at(dev, holder(path)) {
                Err(f) => f,
                Ok(b) => Fault::Sys(
                    if b {
                        SysErrNo::ENOTDIR
                    } else {
                        SysErrNo::ENOENT
                    },
                ),
            }
        }
    }

    /// Why a path leads nowhere: its directory is none, or it is just missing.
    pub fn missing_path_errno<D: RawBlockDevice>(&self, dev: &D, path: &str) -> (r: Fault)
        requires
            self.wf(),
        ensures
            r == self.missing_at(dev, path@),
    {
        let norm = normalize_path(path);
        let parent = holder_path(path);
        if str_eq(parent.as_str(), norm.as_str()) {
            return Fault::Sys(SysErrNo::ENOENT);
        }
        match self.path_exists_non_dir(dev, parent.as_str()) {
            Err(f) => f,
            Ok(true) => Fault::Sys(SysErrNo::ENOTDIR),
            Ok(false) => Fault::Sys(SysErrNo::ENOENT),
        }
    }
}

} // verus!
