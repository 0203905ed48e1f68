//! Directory listings.
use vstd::prelude::*;

use crate::fs::memfs::model::{entries_sorted, entry_inserted, DirEntryModel};
use crate::fs::path::{child_name, child_of};
use crate::text::str_lt;

verus! {

/// One entry of a directory.
pub struct DirEntryRecord {
    pub name: String,
    pub is_dir: bool,
}

impl View for DirEntryRecord {
    type V = DirEntryModel;

    open spec fn view(&self) -> DirEntryModel {
        DirEntryModel { name: self.name@, is_dir: self.is_dir }
    }
}

/// The views of a listing.
pub open spec fn entry_views(entries: Seq<DirEntryRecord>) -> Seq<DirEntryModel> {
    entries.map_values(|e: DirEntryRecord| e@)
}

/// A copy of a listing.
pub fn copy_entries(entries: &Vec<DirEntryRecord>) -> (r: Vec<DirEntryRecord>)
    ensures
        entry_views(r@) == entry_views(entries@),
{
    let mut r: Vec<DirEntryRecord> = Vec::new();
    let mut i: usize = 0;
    while i < entries.len()
        invariant
            0 <= i <= entries@.len(),
            entry_views(r@) == entry_views(entries@).take(i as int),
        decreases entries@.len() - i,
    {
        let ghost before = entry_views(r@);
        r.push(DirEntryRecord { name: entries[i].name.clone(), is_dir: entries[i].is_dir });
        assert(entry_views(r@) =~= before.push(entries@[i as int]@));
        assert(entry_views(entries@).take(i + 1) =~= entry_views(entries@).take(i as int).push(
            entries@[i as int]@,
        ));
        i = i + 1;
    }
    assert(entry_views(entries@).take(i as int) =~= entry_views(entries@));
    r
}

/// Adds the entry of a path to a listing, if it lies directly in the directory.
pub fn push_child(entries: &mut Vec<DirEntryRecord>, dir: &str, path: &str, is_dir: bool)
    ensures
        entry_views(final(entries)@) == (match child_of(dir@, path@) {
            Some(name) => entry_views(old(entries)@).push(DirEntryModel { name, is_dir }),
            None => entry_views(old(entries)@),
        }),
{
    match child_name(dir, path) {
        Some(name) => {
            let ghost before = entry_views(entries@);
            let ghost n = name@;
            entries.push(DirEntryRecord { name, is_dir });
            assert(entry_views(entries@) =~= before.push(DirEntryModel { name: n, is_dir }));
        },
        None => {},
    }
}

fn insert_sorted(sorted: &mut Vec<DirEntryRecord>, e: DirEntryRecord)
    ensures
        entry_views(final(sorted)@) == entry_inserted(entry_views(old(sorted)@), e@),
{
    let ghost start = entry_views(sorted@);
    let mut i: usize = sorted.len();
    assert(start.take(i as int) =~= start);
    assert(start.skip(i as int) =~= Seq::empty());
    assert(entry_inserted(start.take(i as int), e@) + start.skip(i as int) =~= entry_inserted(
        start,
        e@,
    ));
    while i > 0 && str_lt(e.name.as_str(), sorted[i - 1].name.as_str())
        invariant
            0 <= i <= sorted@.len(),
            start == entry_views(sorted@),
            entry_inserted(start.take(i as int), e@) + start.skip(i as int) == entry_inserted(
                start,
                e@,
            ),
        decreases i,
    {
        proof {
            let t = start.take(i as int);
            assert(t.last() == sorted@[i - 1]@);
            assert(t.drop_last() =~= start.take(i - 1));
            assert(entry_inserted(start.take(i - 1), e@) + start.skip(i - 1)
                =~= entry_inserted(t, e@) + start.skip(i as int));
        }
        i = i - 1;
    }
    proof {
        let t = start.take(i as int);
        if i > 0 {
            assert(t.last() == sorted@[i - 1]@);
        }
        assert(entry_inserted(t, e@) == t.push(e@));
    }
    let ghost ev = e@;
    sorted.insert(i, e);
    assert(entry_views(sorted@) =~= start.take(i as int).push(ev) + start.skip(i as int));
}

/// Puts a listing in the order of its names; equal names stay in order.
pub fn sort_entries(entries: Vec<DirEntryRecord>) -> (sorted: Vec<DirEntryRecord>)
    ensures
        entry_views(sorted@) == entries_sorted(entry_views(entries@)),
{
    let mut sorted: Vec<DirEntryRecord> = Vec::new();
    let mut i: usize = 0;
    let ghost all = entry_views(entries@);
    assert(all.take(0) =~= Seq::empty());
    assert(entry_views(sorted@) =~= Seq::empty());
    while i < entries.len()
        invariant
            0 <= i <= entries@.len(),
            all == entry_views(entries@),
            entry_views(sorted@) == entries_sorted(all.take(i as int)),
        decreases entries@.len() - i,
    {
        let e = DirEntryRecord { name: entries[i].name.clone(), is_dir: entries[i].is_dir };
        proof {
            let next = all.take(i + 1);
            assert(next.drop_last() =~= all.take(i as int));
            assert(next.last() == entries@[i as int]@);
            assert(e@ == entries@[i as int]@);
        }
        insert_sorted(&mut sorted, e);
        i = i + 1;
    }
    assert(all.take(i as int) =~= all);
    sorted
}

} // verus!
