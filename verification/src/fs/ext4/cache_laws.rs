//! What is kept in memory of a volume never contradicts what was done to it.
use vstd::prelude::*;

use crate::fs::content::MAX_FILE_OFFSET;
use crate::fs::ext4::caches::{block_key, page_key};
use crate::fs::ext4::data::{TruncateWork, WriteFault};
use crate::fs::ext4::mount::{Ext4Volume, FilesModel};
use crate::fs::ext4::plans::{Movement, NewLink};
use crate::fs::ext4::regular::CachedRegularFile;
use crate::fs::ext4::sync::Unlinking;
use crate::fs::ext4::volume::Fault;
use crate::fs::path::{descends, normalized};

verus! {

impl FilesModel {
    /// Some byte of the file from `start` to before `end` lies in a clean page.
    pub open spec fn has_page_in(self, ino: u32, start: int, end: int) -> bool {
        exists|p: int| start <= p < end && #[trigger] self.pages.entries.contains_key(
            page_key(ino, p / 4096),
        )
    }
}

/// Once bytes of a file were written, no image of the file is left that lacks
/// them, nor a clean page where they belong, nor a note of where its blocks lie;
/// what is held of any other file stays.
pub proof fn a_write_leaves_nothing_stale(
    was: &Ext4Volume,
    after: &Ext4Volume,
    ino: u32,
    offset: usize,
    buf: Seq<u8>,
    disk: Seq<u8>,
    now: u32,
    n: usize,
    lblock: u32,
    other: u32,
    page: int,
)
    requires
        after.wrote_at(was, ino, offset, buf, disk, now, Ok::<usize, WriteFault>(n)),
        buf.len() > 0,
        other != ino,
        0 <= page <= 0xffff_ffff_ffff_ffff,
    ensures
        offset + buf.len() <= MAX_FILE_OFFSET,
        !after.files().images.contains_key(ino as u128),
        !after.files().has_page_in(ino, offset as int, offset + n),
        !after.files().runs.entries.contains_key(block_key(ino, lblock)),
        was.files().regular.contains_key(other as u128) ==> after.files().regular.contains_key(
            other as u128,
        ) && after.files().regular[other as u128] == was.files().regular[other as u128],
        was.files().images.contains_key(other as u128) ==> after.files().images.contains_key(
            other as u128,
        ),
        was.files().pages.entries.contains_key(page_key(other, page))
            ==> after.files().pages.entries.contains_key(page_key(other, page))
            && after.files().pages.entries[page_key(other, page)]
            == was.files().pages.entries[page_key(other, page)],
        after.files().open_refs == was.files().open_refs,
        after.names.dirs@ == was.names.dirs@,
{
    let g = choose|f: CachedRegularFile| #[trigger]
        f.wrote(
            &was.files().regular[ino as u128],
            offset,
            buf,
            disk,
            now,
            Ok(n),
        ) && f.wf() && after.file_changed(
            was.files().without_runs(ino).without_image(ino).without_page_range(
                ino,
                offset as int,
                offset + buf.len(),
            ),
            ino,
            f,
        );
    assert(n <= buf.len());
    assert forall|p: int| offset <= p < offset + n implies !(#[trigger] after.files().pages.entries.contains_key(
        page_key(ino, p / 4096),
    )) by {
        assert(offset as int / 4096 <= p / 4096 <= (offset + buf.len() - 1) / 4096);
    }
}


/// Once a regular file was cut or lengthened, no image of it is left, no clean
/// page of it and no note of where its blocks lie, whether it is held in memory
/// or still to be changed on disk.
pub proof fn a_cut_leaves_nothing_stale(
    was: &Ext4Volume,
    after: &Ext4Volume,
    ino: u32,
    size: u64,
    now: u32,
    work: TruncateWork,
    lblock: u32,
    page: int,
    other: u32,
)
    requires
        after.truncate_done(was, ino, size, now, Ok::<TruncateWork, Fault>(work)),
        was.names.inodes@[ino as u128].mode & 0o170000 == 0o100000,
        0 <= page <= 0xffff_ffff_ffff_ffff,
        other != ino,
    ensures
        !after.files().images.contains_key(ino as u128),
        !after.files().pages.entries.contains_key(page_key(ino, page)),
        !after.files().runs.entries.contains_key(block_key(ino, lblock)),
        was.files().images.contains_key(other as u128) ==> after.files().images.contains_key(
            other as u128,
        ),
        was.files().pages.entries.contains_key(page_key(other, page))
            ==> after.files().pages.entries.contains_key(page_key(other, page)),
        was.files().regular.contains_key(other as u128) ==> after.files().regular[other as u128]
            == was.files().regular[other as u128],
        was.files().regular.contains_key(ino as u128) ==> work == TruncateWork::Cached
            && after.files().regular.contains_key(ino as u128)
            && after.files().regular[ino as u128].size == size,
        !was.files().regular.contains_key(ino as u128) ==> {
            let told = was.names.inodes@[ino as u128].size;
            &&& work == TruncateWork::Shrink <==> size < told
            &&& work == TruncateWork::Grow <==> size > told
            &&& work == TruncateWork::Keep <==> size == told
        },
{
}

/// A file whose changes are to be written waits for it exactly if it is large, is
/// not being written already and has changes; once is enough, and those who
/// waited before keep their places.
pub proof fn changed_files_wait_for_writing(m: FilesModel, ino: u32)
    ensures
        ({
            let after = m.scheduled(ino);
            let f = m.regular[ino as u128];
            let due = m.regular.contains_key(ino as u128) && f.dirty.pending()
                && !f.dirty.active() && f.size >= 262144;
            &&& due ==> after.queued.contains(ino)
            &&& due && !m.queued.contains(ino) ==> after.waiting == m.waiting.push(ino)
            &&& m.queued.contains(ino) ==> after.waiting == m.waiting
            &&& !due ==> after == m
            &&& forall|other: u32| other != ino ==> (#[trigger] after.queued.contains(other)
                == m.queued.contains(other))
            &&& m.regular.contains_key(ino as u128) ==> {
                let g = after.regular[ino as u128];
                &&& g.size == f.size && g.dense == f.dense && g.pages == f.pages
                &&& g.dirty.ranges == f.dirty.ranges && g.dirty.seq == f.dirty.seq
                &&& g.dirty.pending() == f.dirty.pending()
            }
        }),
{
}

/// Once an entry was renamed, no path at or below its old or its new name is
/// remembered, neither as one that leads somewhere nor as one that does not, and
/// neither are its directories and the inodes that changed; other paths stay.
pub proof fn a_rename_leaves_nothing_stale(
    was: &Ext4Volume,
    after: &Ext4Volume,
    movement: &Movement,
    path: Seq<char>,
)
    requires
        after.rename_noted(was, movement),
    ensures
        ({
            let from = normalized(movement.from.path@);
            let to = normalized(movement.to.path@);
            let concerned = path == from || path == to || descends(from, path) || descends(
                to,
                path,
            ) || from == seq!['/'] || to == seq!['/'];
            &&& concerned ==> !after.names.paths.found@.contains_key(path)
                && !after.names.paths.missing@.contains_key(path)
            &&& !concerned && was.names.paths.found@.contains_key(path)
                ==> after.names.paths.found@.contains_key(path) && after.names.paths.found@[path]
                == was.names.paths.found@[path]
            &&& !concerned && was.names.paths.missing@.contains_key(path)
                ==> after.names.paths.missing@.contains_key(path)
            &&& after.names.paths.found@.contains_key(path)
                ==> was.names.paths.found@.contains_key(path)
            &&& !after.names.dirs@.contains_key(movement.from.parent_ino as u128)
            &&& !after.names.dirs@.contains_key(movement.to.parent_ino as u128)
            &&& !after.files().inodes.contains_key(movement.from.parent_ino as u128)
            &&& !after.files().inodes.contains_key(movement.to.parent_ino as u128)
            &&& !after.files().inodes.contains_key(movement.child_ino as u128)
            &&& after.files().regular == was.files().regular
        }),
{
}

/// Once an entry came or went, no path at or below its name is remembered, nor
/// what its directory holds; other paths and directories stay.
pub proof fn a_changed_name_is_looked_up_again(
    was: &Ext4Volume,
    after: &Ext4Volume,
    parent: u32,
    name: Seq<char>,
    path: Seq<char>,
    dir: u128,
)
    requires
        after.names_changed(was, parent, name),
    ensures
        ({
            let n = normalized(name);
            let concerned = path == n || descends(n, path) || n == seq!['/'];
            &&& concerned ==> !after.names.paths.found@.contains_key(path)
                && !after.names.paths.missing@.contains_key(path)
            &&& !concerned && was.names.paths.found@.contains_key(path)
                ==> after.names.paths.found@.contains_key(path) && after.names.paths.found@[path]
                == was.names.paths.found@[path]
            &&& after.names.paths.found@.contains_key(path)
                ==> was.names.paths.found@.contains_key(path)
            &&& !after.names.dirs@.contains_key(parent as u128)
            &&& dir != parent && was.names.dirs@.contains_key(dir)
                ==> after.names.dirs@.contains_key(dir) && after.names.dirs@[dir]
                == was.names.dirs@[dir]
        }),
{
}

/// A file that got another name keeps its contents; its count of names is read
/// anew.
pub proof fn a_new_link_is_counted_anew(was: &Ext4Volume, after: &Ext4Volume, link: &NewLink)
    requires
        after.link_noted(was, link),
    ensures
        !after.files().inodes.contains_key(link.child_ino as u128),
        !after.files().inodes.contains_key(link.place.parent_ino as u128),
        !after.names.dirs@.contains_key(link.place.parent_ino as u128),
        after.files().regular == was.files().regular,
        after.files().pages == was.files().pages,
        after.files().open_refs == was.files().open_refs,
{
}

/// An unlinked file is deleted only once its last name is gone and nobody has it
/// open: while it has another name or is open, its contents in memory stay, and
/// they are brought to disk first if another name is left.
pub proof fn a_used_file_keeps_its_contents(
    was: &Ext4Volume,
    after: &Ext4Volume,
    path: Seq<char>,
    u: Unlinking,
    other: u128,
)
    requires
        after.unlink_done(was, path, Ok::<Unlinking, Fault>(u)),
        other != u.removal.child_ino as u128,
    ensures
        ({
            let ino = u.removal.child_ino;
            let last = u.removal.links <= 1;
            let used = was.files().open_refs.contains_key(ino as u128)
                && was.files().open_refs[ino as u128] > 0;
            &&& u.flush_first <==> !last
            &&& u.delayed <==> last && used
            &&& !last || used ==> after.files().regular == was.files().regular
                && after.files().times == was.files().times
            &&& last && !used ==> !after.files().regular.contains_key(ino as u128)
                && !after.files().images.contains_key(ino as u128)
                && !after.files().inodes.contains_key(ino as u128)
                && !after.files().queued.contains(ino)
            &&& was.files().regular.contains_key(other) ==> after.files().regular.contains_key(
                other,
            ) && after.files().regular[other] == was.files().regular[other]
            &&& u.frees_spec() <==> last && !used
        }),
{
}

} // verus!
