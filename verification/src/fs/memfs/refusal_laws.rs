//! What is refused, and what attributes and orders hold.
use vstd::prelude::*;
use vstd::utf8::encode_utf8;

use crate::errno::SysErrNo;
use crate::fs::memfs::model::{
    children, entries_sorted, entry_inserted, key_list, without_text, DirEntryModel, FileModel,
    MemFsModel,
};
use crate::fs::path::{descends, normalized};
use crate::task::Caller;
use crate::text::text_lt;
use crate::textmap::listing;

verus! {

/// An attribute is created only where it is not yet, if that is asked for, and
/// replaced only where it is; its name has up to 255 bytes and its value up to
/// 65536. Links and special nodes take none. All other attributes stay.
pub proof fn attributes_are_set_as_asked(
    m: MemFsModel,
    caller: &Caller,
    path: Seq<char>,
    key: Seq<char>,
    value: Seq<u8>,
    flags: usize,
    other: Seq<char>,
)
    requires
        other != key,
    ensures
        ({
            let (after, r) = m.set_xattr(caller, path, key, value, flags);
            let had = m.get_xattr(path, key) is Ok;
            let n = normalized(path);
            let node = m.has_node(n) && m.metadata.contains_key(n) && m.metadata[n].ino != 0;
            let fits = 0 < key.len() && encode_utf8(key).len() <= 255 && value.len() <= 65536;
            let holds = m.file_index(n) is Some || m.has_dir(n);
            &&& r is Ok <==> flags <= 2 && fits && node && holds && (flags == 1 ==> !had) && (flags
                == 2 ==> had)
            &&& flags == 1 && fits && node && holds && had ==> r == Err::<(), SysErrNo>(
                SysErrNo::EEXIST,
            )
            &&& flags == 2 && fits && node && holds && !had ==> r == Err::<(), SysErrNo>(
                SysErrNo::ENODATA,
            )
            &&& fits && flags <= 2 && node && !holds ==> r == Err::<(), SysErrNo>(SysErrNo::EPERM)
            &&& fits && flags <= 2 && !node ==> r == Err::<(), SysErrNo>(SysErrNo::ENOENT)
            &&& r is Err ==> after == m
            &&& r is Ok && m.get_xattr(path, other) is Ok ==> after.xattrs[m.metadata[n].ino].contains_key(
                other,
            ) && after.xattrs[m.metadata[n].ino][other] == m.get_xattr(path, other)->Ok_0
            &&& r is Ok ==> forall|ino: u64|
                ino != m.metadata[n].ino && m.xattrs.contains_key(ino)
                    ==> #[trigger] after.xattrs.contains_key(ino) && after.xattrs[ino]
                    == m.xattrs[ino]
        }),
{
}

/// An attribute that is not there cannot be taken away; one that is takes no other
/// with it.
pub proof fn one_attribute_is_taken_away(
    m: MemFsModel,
    caller: &Caller,
    path: Seq<char>,
    key: Seq<char>,
    other: Seq<char>,
)
    requires
        other != key,
        m.xattrs.contains_key(m.metadata[normalized(path)].ino) ==> m.xattrs[m.metadata[normalized(
            path,
        )].ino].dom().finite(),
    ensures
        ({
            let (after, r) = m.remove_xattr(caller, path, key);
            let ino = m.metadata[normalized(path)].ino;
            &&& r is Ok ==> m.get_xattr(path, key) is Ok
            &&& m.get_xattr(path, key) == Err::<Seq<u8>, SysErrNo>(SysErrNo::ENODATA) && (
            m.file_index(normalized(path)) is Some || m.has_dir(normalized(path))) ==> r == Err::<
                (),
                SysErrNo,
            >(SysErrNo::ENODATA)
            &&& r is Ok && m.attrs(ino).contains_key(other) ==> after.attrs(ino).contains_key(other)
                && after.attrs(ino)[other] == m.attrs(ino)[other]
            &&& r is Ok ==> !after.attrs(ino).contains_key(key)
            &&& r is Err ==> after == m
        }),
{
    let ino = m.metadata[normalized(path)].ino;
    let left = m.attrs(ino).remove(key);
    if m.attrs(ino).contains_key(other) {
        assert(left.contains_key(other));
        assert(left.dom().contains(other));
        if left.dom().len() == 0 {
            assert(left.dom() =~= Set::empty());
        }
    }
}

/// The names of attributes are listed one behind the other, each with a zero
/// behind it.
pub proof fn listed_names_end_in_zeros(keys: Seq<Seq<char>>, key: Seq<char>)
    ensures
        key_list(keys.push(key)) == key_list(keys) + encode_utf8(key) + seq![0u8],
        key_list(Seq::empty()) == Seq::<u8>::empty(),
{
    assert(keys.push(key).drop_last() =~= keys);
    assert(key_list(keys.push(key)) =~= key_list(keys) + encode_utf8(key) + seq![0u8]);
}

/// Only an empty directory is taken away, never the root; nothing goes with it.
pub proof fn only_empty_dirs_are_taken_away(m: MemFsModel, path: Seq<char>, i: int, link: Seq<char>)
    ensures
        ({
            let (after, r) = m.remove_dir(path);
            let n = normalized(path);
            &&& n == seq!['/'] ==> r is Err
            &&& n != seq!['/'] && !m.has_dir(n) ==> r == Err::<(), SysErrNo>(SysErrNo::ENOENT)
            &&& n != seq!['/'] && m.has_dir(n) && 0 <= i < m.files.len() && descends(
                n,
                m.files[i].name,
            ) ==> r == Err::<(), SysErrNo>(SysErrNo::ENOTEMPTY)
            &&& n != seq!['/'] && m.has_dir(n) && m.symlinks.contains_key(link) && descends(n, link)
                ==> r == Err::<(), SysErrNo>(SysErrNo::ENOTEMPTY)
            &&& n != seq!['/'] && m.has_dir(n) && m.has_dir(link) && link != n && descends(n, link)
                ==> r == Err::<(), SysErrNo>(SysErrNo::ENOTEMPTY)
            &&& r is Ok ==> !after.has_dir(n)
            &&& r is Ok && m.has_dir(link) && link != n ==> after.has_dir(link)
            &&& r is Ok ==> after.files == m.files && after.symlinks == m.symlinks
            &&& r is Err ==> after == m
        }),
{
    let n = normalized(path);
    if m.has_dir(link) {
        let k = choose|k: int| 0 <= k < m.dirs.len() && m.dirs[k] == link;
        assert(m.dirs[k] == link);
    }
    lemma_without(m.dirs, n, link);
}

proof fn lemma_without(dirs: Seq<Seq<char>>, gone: Seq<char>, other: Seq<char>)
    ensures
        !without_text(dirs, gone).contains(gone),
        other != gone ==> (without_text(dirs, gone).contains(other)
            <==> dirs.contains(other)),
    decreases dirs.len(),
{
    if dirs.len() > 0 {
        let front = dirs.drop_last();
        let out = without_text(dirs, gone);
        let before = without_text(front, gone);
        lemma_without(front, gone, other);
        lemma_without(front, gone, gone);
        assert(dirs =~= front.push(dirs.last()));
        lemma_push(front, dirs.last(), other);
        lemma_push(before, dirs.last(), other);
        lemma_push(before, dirs.last(), gone);
    }
}

proof fn lemma_push(s: Seq<Seq<char>>, e: Seq<char>, x: Seq<char>)
    ensures
        s.push(e).contains(x) <==> s.contains(x) || x == e,
{
    let t = s.push(e);
    if s.contains(x) {
        let i = choose|i: int| 0 <= i < s.len() && s[i] == x;
        assert(t[i] == x);
    }
    if x == e {
        assert(t[s.len() as int] == x);
    }
    if t.contains(x) {
        let i = choose|i: int| 0 <= i < t.len() && t[i] == x;
        if i < s.len() {
            assert(s[i] == x);
        }
    }
}

proof fn lemma_not_both(a: Seq<char>, b: Seq<char>)
    ensures
        !(text_lt(a, b) && text_lt(b, a)),
    decreases a.len(),
{
    if a.len() > 0 && b.len() > 0 && a[0] == b[0] {
        lemma_not_both(a.drop_first(), b.drop_first());
    }
}

proof fn lemma_carries_over(a: Seq<char>, b: Seq<char>, c: Seq<char>)
    requires
        !text_lt(b, a),
        !text_lt(c, b),
    ensures
        !text_lt(c, a),
    decreases a.len(),
{
    if a.len() > 0 && c.len() > 0 && b.len() > 0 {
        if a[0] == b[0] && b[0] == c[0] {
            lemma_carries_over(a.drop_first(), b.drop_first(), c.drop_first());
        }
    }
}

spec fn in_order(s: Seq<DirEntryModel>) -> bool {
    forall|i: int, j: int|
        0 <= i < j < s.len() ==> !text_lt((#[trigger] s[j]).name, (#[trigger] s[i]).name)
}

proof fn lemma_inserted_in_order(s: Seq<DirEntryModel>, e: DirEntryModel)
    requires
        in_order(s),
    ensures
        in_order(entry_inserted(s, e)),
        forall|i: int|
            0 <= i < entry_inserted(s, e).len() ==> #[trigger] entry_inserted(s, e)[i] == e
                || s.contains(entry_inserted(s, e)[i]),
    decreases s.len(),
{
    let out = entry_inserted(s, e);
    if s.len() > 0 && text_lt(e.name, s.last().name) {
        let front = s.drop_last();
        lemma_inserted_in_order(front, e);
        let before = entry_inserted(front, e);
        assert(out =~= before.push(s.last()));
        assert forall|i: int| 0 <= i < out.len() implies #[trigger] out[i] == e || s.contains(
            out[i],
        ) by {
            if i < before.len() {
                assert(before[i] == out[i]);
                if before[i] != e {
                    let k = choose|k: int| 0 <= k < front.len() && front[k] == before[i];
                    assert(s[k] == out[i]);
                }
            } else {
                assert(s[s.len() - 1] == out[i]);
            }
        }
        assert forall|i: int, j: int| 0 <= i < j < out.len() implies !text_lt(
            (#[trigger] out[j]).name,
            (#[trigger] out[i]).name,
        ) by {
            assert(out[i] == before[i]);
            if j < before.len() {
                assert(out[j] == before[j]);
            } else if before[i] == e {
                lemma_not_both(e.name, s.last().name);
            } else {
                let k = choose|k: int| 0 <= k < front.len() && front[k] == before[i];
                assert(s[k] == before[i] && s[s.len() - 1] == s.last());
            }
        }
    } else {
        assert forall|i: int| 0 <= i < out.len() implies #[trigger] out[i] == e || s.contains(
            out[i],
        ) by {
            if i < s.len() {
                assert(s[i] == out[i]);
            }
        }
        assert forall|i: int, j: int| 0 <= i < j < out.len() implies !text_lt(
            (#[trigger] out[j]).name,
            (#[trigger] out[i]).name,
        ) by {
            if j < s.len() {
                assert(s[i] == out[i] && s[j] == out[j]);
            } else if i < s.len() - 1 {
                assert(s[i] == out[i] && s[s.len() - 1] == s.last());
                lemma_carries_over(s[i].name, s.last().name, e.name);
            }
        }
    }
}

proof fn lemma_sorted_in_order(entries: Seq<DirEntryModel>)
    ensures
        in_order(entries_sorted(entries)),
    decreases entries.len(),
{
    if entries.len() > 0 {
        lemma_sorted_in_order(entries.drop_last());
        lemma_inserted_in_order(entries_sorted(entries.drop_last()), entries.last());
    }
}

/// Directories list their entries in the order of their names.
pub proof fn directories_list_in_order(m: MemFsModel, dir: Seq<char>, i: int, j: int)
    requires
        0 <= i < j < m.entries(dir).len(),
    ensures
        !text_lt(m.entries(dir)[j].name, m.entries(dir)[i].name),
{
    let all = children(dir, m.dirs, true)
        + children(
        dir,
        m.files.map_values(|f: FileModel| f.name),
        false,
    ) + children(
        dir,
        listing(m.symlinks.dom()),
        false,
    ) + children(
        dir,
        listing(m.specials.dom()),
        false,
    );
    lemma_sorted_in_order(all);
    let out = m.entries(dir);
    assert(out == entries_sorted(all));
    assert(out[i] == entries_sorted(all)[i] && out[j] == entries_sorted(all)[j]);
}

} // verus!
