//! What the pieces of a path mean.
use vstd::prelude::*;

use crate::fs::ext4::resolve::link_target;
use crate::fs::path::{
    all_names, at_or_below, descendant_continues_names, is_absolute, is_plain, kept,
    lemma_parts_are_names, lemma_parts_of_render, lemma_split_concat, lemma_split_single,
    normalize_is_idempotent, normalized, parent_of, parts_of, render, resolved, split,
};
use crate::fs::vfs::tree::{holder, under};
use crate::text::has_prefix;

verus! {

/// A name behind a path leads one step down, two points lead one step up but not
/// above the root, and one point or nothing leads nowhere else.
pub proof fn pieces_lead_step_by_step(path: Seq<char>, name: Seq<char>)
    requires
        !name.contains('/'),
    ensures
        is_plain(name) ==> parts_of(path.push('/') + name) == parts_of(path).push(name),
        name == seq!['.', '.'] && parts_of(path).len() > 0 ==> parts_of(path.push('/') + name)
            == parts_of(path).drop_last(),
        name == seq!['.', '.'] && parts_of(path).len() == 0 ==> parts_of(path.push('/') + name)
            == parts_of(path),
        name == seq!['.'] || name.len() == 0 ==> parts_of(path.push('/') + name) == parts_of(path),
        path.len() > 0 ==> is_absolute(path.push('/') + name) == is_absolute(path),
{
    lemma_split_concat(path, name);
    lemma_split_single(name);
    let all = split(path) + seq![name];
    assert(all.drop_last() =~= split(path));
    assert(all.last() == name);
    assert(seq!['.', '.'].len() == 2 && seq!['.'].len() == 1);
    if name == seq!['.', '.'] {
        assert(name != seq!['.']);
    }
    assert(parts_of(path).len() == 0 ==> parts_of(path) =~= Seq::<Seq<char>>::empty());
}

/// A path of one name, and the empty path.
pub proof fn single_names(name: Seq<char>)
    requires
        !name.contains('/'),
    ensures
        is_plain(name) ==> parts_of(name) == seq![name],
        name.len() == 0 ==> parts_of(name) == Seq::<Seq<char>>::empty(),
        parts_of(seq!['/']) == Seq::<Seq<char>>::empty(),
{
    reveal_with_fuel(kept, 3);
    lemma_split_single(name);
    let one = seq![name];
    let none = Seq::<Seq<char>>::empty();
    assert(one.drop_last() =~= none);
    assert(none.push(name) =~= one);
    let e = Seq::<char>::empty();
    lemma_split_concat(e, e);
    lemma_split_single(e);
    assert(e.push('/') + e =~= seq!['/']);
    let two = seq![e] + seq![e];
    assert(two.drop_last() =~= seq![e]);
    assert(seq![e].drop_last() =~= none);
    if name.len() == 0 {
        assert(name =~= e);
    }
}

/// A path from the root does not depend on where a task is; any other goes on
/// from there.
pub proof fn relative_paths_go_on_from_here(cwd: Seq<char>, other: Seq<char>, path: Seq<char>)
    requires
        is_absolute(cwd),
    ensures
        is_absolute(path) ==> resolved(cwd, path) == normalized(path) && resolved(cwd, path)
            == resolved(other, path),
        !is_absolute(path) && !path.contains('/') && is_plain(path) ==> parts_of(
            resolved(cwd, path),
        ) == parts_of(cwd).push(path),
        !is_absolute(path) && path == seq!['.', '.'] && parts_of(cwd).len() > 0 ==> parts_of(
            resolved(cwd, path),
        ) == parts_of(cwd).drop_last(),
        is_absolute(resolved(cwd, path)),
        normalized(resolved(cwd, path)) == resolved(cwd, path),
{
    let whole = if is_absolute(path) {
        path
    } else if cwd == seq!['/'] {
        seq!['/'] + path
    } else {
        cwd.push('/') + path
    };
    normalize_is_idempotent(whole);
    lemma_parts_are_names(whole);
    lemma_parts_of_render(is_absolute(whole), parts_of(whole));
    if !is_absolute(path) && !path.contains('/') {
        if cwd == seq!['/'] {
            single_names(path);
            let e = Seq::<char>::empty();
            assert(seq!['/'] + path =~= e.push('/') + path);
            pieces_lead_step_by_step(e, path);
            single_names(e);
        } else {
            pieces_lead_step_by_step(cwd, path);
        }
    }
    if path == seq!['.', '.'] {
        assert(!path.contains('/')) by {
            assert(path[0] == '.' && path[1] == '.');
        }
    }
}

/// A link that names something in its own directory leads there, and one that
/// starts at the root leads to where it says.
pub proof fn links_lead_from_their_directory(link: Seq<char>, target: Seq<char>)
    requires
        is_absolute(link),
        normalized(link) == link,
        parts_of(link).len() > 0,
    ensures
        is_absolute(target) ==> link_target(link, target) == normalized(target),
        is_plain(target) && !target.contains('/') ==> parts_of(link_target(link, target))
            == parts_of(link).drop_last().push(target),
        is_absolute(link_target(link, target)),
{
    let names = parts_of(link);
    lemma_parts_are_names(link);
    let front = names.drop_last();
    assert(all_names(front));
    lemma_parts_of_render(true, front);
    let dir = parent_of(link);
    if names.len() <= 1 {
        assert(front =~= Seq::<Seq<char>>::empty());
        single_names(Seq::empty());
    }
    assert(parts_of(dir) == front);
    assert(is_absolute(dir));
    if !is_absolute(target) {
        let whole = dir + seq!['/'] + target;
        assert(whole =~= dir.push('/') + target);
        lemma_parts_are_names(whole);
        lemma_parts_of_render(true, parts_of(whole));
        assert(is_absolute(whole));
        if !target.contains('/') {
            pieces_lead_step_by_step(dir, target);
        }
    } else {
        lemma_parts_are_names(target);
        lemma_parts_of_render(true, parts_of(target));
    }
    if target.len() > 0 && target[0] == '/' {
        assert(target.contains('/'));
    }
}

/// What lies under a directory continues its names, and so does the directory
/// itself; the path inside is what is left of them.
pub proof fn what_is_under_continues_names(path: Seq<char>, dir: Seq<char>)
    requires
        is_absolute(path),
        is_absolute(dir),
        parts_of(dir).len() > 0,
    ensures
        under(path, dir) <==> parts_of(dir).len() <= parts_of(path).len() && parts_of(path).take(
            parts_of(dir).len() as int,
        ) == parts_of(dir),
{
    let a = parts_of(dir);
    let b = parts_of(path);
    lemma_parts_are_names(dir);
    lemma_parts_are_names(path);
    lemma_parts_of_render(true, a);
    lemma_parts_of_render(true, b);
    descendant_continues_names(a, b);
    let d = normalized(dir);
    let p = normalized(path);
    assert(d == render(true, a) && p == render(true, b));
    assert(d != seq!['/']) by {
        single_names(Seq::empty());
    }
    assert(at_or_below(p, d) <==> p == d || has_prefix(p, d.push('/')));
    if p == d {
        assert(a == b);
        assert(b.take(a.len() as int) =~= a);
    }
    if a.len() == b.len() && b.take(a.len() as int) == a {
        assert(a =~= b);
    }
}

/// The directory that holds a path has all its names but the last.
pub proof fn a_holder_lacks_the_last_name(path: Seq<char>)
    requires
        is_absolute(path),
    ensures
        parts_of(path).len() > 0 ==> parts_of(holder(path)) == parts_of(path).drop_last(),
        parts_of(path).len() == 0 ==> holder(path) == seq!['/'],
        is_absolute(holder(path)),
{
    let names = parts_of(path);
    lemma_parts_are_names(path);
    lemma_parts_of_render(true, names);
    if names.len() > 0 {
        let front = names.drop_last();
        assert(all_names(front));
        lemma_parts_of_render(true, front);
        if names.len() == 1 {
            assert(front =~= Seq::<Seq<char>>::empty());
            single_names(Seq::empty());
        }
    }
}

} // verus!
