//! Textual path handling: normalisation, resolution against a working
//! directory and a root, and the parent and child relations.
use vstd::prelude::*;

use crate::text::{
    concat, concat3, from_chars, has_prefix, starts_with, str_eq, strip_prefix, texts, to_chars,
};

verus! {

/// The pieces between the slashes of `s`; there is always at least one.
pub open spec fn split(s: Seq<char>) -> Seq<Seq<char>>
    decreases s.len(),
{
    if s.len() == 0 {
        seq![Seq::empty()]
    } else {
        let rest = split(s.drop_last());
        if s.last() == '/' {
            rest.push(Seq::empty())
        } else {
            rest.drop_last().push(rest.last().push(s.last()))
        }
    }
}

/// The pieces with a slash between each two.
pub open spec fn join(parts: Seq<Seq<char>>) -> Seq<char>
    decreases parts.len(),
{
    if parts.len() == 0 {
        Seq::empty()
    } else if parts.len() == 1 {
        parts[0]
    } else {
        join(parts.drop_last()).push('/') + parts.last()
    }
}

/// A piece that names something: not empty, not `.` and not `..`.
pub open spec fn is_plain(part: Seq<char>) -> bool {
    part.len() > 0 && part != seq!['.'] && part != seq!['.', '.']
}

/// The pieces that remain once `.` and empty pieces are dropped and each `..`
/// has taken away the piece before it.
pub open spec fn kept(parts: Seq<Seq<char>>) -> Seq<Seq<char>>
    decreases parts.len(),
{
    if parts.len() == 0 {
        Seq::empty()
    } else {
        let rest = kept(parts.drop_last());
        let part = parts.last();
        if part.len() == 0 || part == seq!['.'] {
            rest
        } else if part == seq!['.', '.'] {
            if rest.len() == 0 {
                rest
            } else {
                rest.drop_last()
            }
        } else {
            rest.push(part)
        }
    }
}

/// Whether a path starts at the root.
pub open spec fn is_absolute(s: Seq<char>) -> bool {
    s.len() > 0 && s[0] == '/'
}

/// The names that a path goes through.
pub open spec fn parts_of(s: Seq<char>) -> Seq<Seq<char>> {
    kept(split(s))
}

/// The path with the given names.
pub open spec fn render(absolute: bool, parts: Seq<Seq<char>>) -> Seq<char> {
    if absolute {
        seq!['/'] + join(parts)
    } else if parts.len() == 0 {
        seq!['.']
    } else {
        join(parts)
    }
}

/// The normal form of a path.
pub open spec fn normalized(s: Seq<char>) -> Seq<char> {
    render(is_absolute(s), parts_of(s))
}

proof fn lemma_split_nonempty(s: Seq<char>)
    ensures
        split(s).len() > 0,
    decreases s.len(),
{
    if s.len() > 0 {
        lemma_split_nonempty(s.drop_last());
    }
}

/// The pieces of a path hold no slash.
pub proof fn lemma_split_pieces(s: Seq<char>)
    ensures
        split(s).len() > 0,
        forall|i: int| 0 <= i < split(s).len() ==> !(#[trigger] split(s)[i]).contains('/'),
    decreases s.len(),
{
    if s.len() > 0 {
        lemma_split_pieces(s.drop_last());
        let rest = split(s.drop_last());
        assert forall|i: int| 0 <= i < split(s).len() implies !(#[trigger] split(s)[i]).contains(
            '/',
        ) by {
            if i == split(s).len() - 1 {
                if s.last() != '/' {
                    let piece = split(s)[i];
                    assert(piece == rest.last().push(s.last()));
                    assert(!rest[rest.len() - 1].contains('/'));
                    if piece.contains('/') {
                        let k = choose|k: int| 0 <= k < piece.len() && piece[k] == '/';
                        assert(rest.last()[k] == '/');
                    }
                }
            } else {
                assert(split(s)[i] == rest[i]);
            }
        }
    }
}

/// Splitting around a slash.
pub proof fn lemma_split_concat(a: Seq<char>, b: Seq<char>)
    ensures
        split(a.push('/') + b) == split(a) + split(b),
    decreases b.len(),
{
    let whole = a.push('/') + b;
    if b.len() == 0 {
        assert(whole =~= a.push('/'));
        assert(whole.drop_last() =~= a);
        assert(split(b) =~= seq![Seq::<char>::empty()]);
        assert(split(a) + split(b) =~= split(a).push(Seq::empty()));
    } else {
        lemma_split_concat(a, b.drop_last());
        lemma_split_nonempty(b.drop_last());
        assert(whole.drop_last() =~= a.push('/') + b.drop_last());
        let rb = split(b.drop_last());
        let rest = split(a) + rb;
        assert(rest.last() == rb.last());
        if b.last() == '/' {
            assert(split(a) + split(b) =~= rest.push(Seq::empty()));
        } else {
            assert(split(a) + split(b) =~= rest.drop_last().push(rest.last().push(b.last())));
        }
    }
}

/// A text without slashes is its own only piece.
pub(crate) proof fn lemma_split_single(s: Seq<char>)
    requires
        !s.contains('/'),
    ensures
        split(s) == seq![s],
    decreases s.len(),
{
    if s.len() > 0 {
        assert(s.last() != '/') by {
            assert(s[s.len() - 1] == s.last());
        }
        assert(!s.drop_last().contains('/')) by {
            if s.drop_last().contains('/') {
                let k = choose|k: int| 0 <= k < s.drop_last().len() && s.drop_last()[k] == '/';
                assert(s[k] == '/');
            }
        }
        lemma_split_single(s.drop_last());
        assert(s.drop_last().push(s.last()) =~= s);
        assert(split(s) =~= seq![s]);
    } else {
        assert(s =~= Seq::empty());
        assert(split(s) =~= seq![s]);
    }
}

/// Splitting undoes joining.
pub proof fn lemma_split_join(parts: Seq<Seq<char>>)
    requires
        parts.len() > 0,
        forall|i: int| 0 <= i < parts.len() ==> !(#[trigger] parts[i]).contains('/'),
    ensures
        split(join(parts)) == parts,
    decreases parts.len(),
{
    if parts.len() == 1 {
        lemma_split_single(parts[0]);
        assert(parts =~= seq![parts[0]]);
    } else {
        let front = parts.drop_last();
        assert forall|i: int| 0 <= i < front.len() implies !(#[trigger] front[i]).contains('/') by {
            assert(front[i] == parts[i]);
        }
        lemma_split_join(front);
        lemma_split_concat(join(front), parts.last());
        lemma_split_single(parts.last());
        assert(front + seq![parts.last()] =~= parts);
    }
}

/// All names of a path are plain and hold no slash.
pub open spec fn all_names(parts: Seq<Seq<char>>) -> bool {
    forall|i: int|
        0 <= i < parts.len() ==> is_plain(#[trigger] parts[i]) && !parts[i].contains('/')
}

proof fn lemma_kept_names(parts: Seq<Seq<char>>)
    requires
        forall|i: int| 0 <= i < parts.len() ==> !(#[trigger] parts[i]).contains('/'),
    ensures
        all_names(kept(parts)),
    decreases parts.len(),
{
    if parts.len() > 0 {
        let front = parts.drop_last();
        assert forall|i: int| 0 <= i < front.len() implies !(#[trigger] front[i]).contains('/') by {
            assert(front[i] == parts[i]);
        }
        lemma_kept_names(front);
        assert(!parts[parts.len() - 1].contains('/'));
    }
}

/// The names of a path are plain and hold no slash.
pub proof fn lemma_parts_are_names(s: Seq<char>)
    ensures
        all_names(parts_of(s)),
{
    lemma_split_pieces(s);
    lemma_kept_names(split(s));
}

/// Names that follow other pieces are kept as they are.
pub proof fn lemma_kept_append(parts: Seq<Seq<char>>, names: Seq<Seq<char>>)
    requires
        all_names(names),
    ensures
        kept(parts + names) == kept(parts) + names,
    decreases names.len(),
{
    if names.len() == 0 {
        assert(parts + names =~= parts);
        assert(kept(parts) + names =~= kept(parts));
    } else {
        let front = names.drop_last();
        assert(all_names(front)) by {
            assert forall|i: int| 0 <= i < front.len() implies is_plain(#[trigger] front[i])
                && !front[i].contains('/') by {
                assert(front[i] == names[i]);
            }
        }
        lemma_kept_append(parts, front);
        assert((parts + names).drop_last() =~= parts + front);
        assert(is_plain(names[names.len() - 1]));
        assert((kept(parts) + front).push(names.last()) =~= kept(parts) + names);
    }
}

/// The names of a rendered path are the names it was rendered from.
pub proof fn lemma_parts_of_render(absolute: bool, names: Seq<Seq<char>>)
    requires
        all_names(names),
    ensures
        parts_of(render(absolute, names)) == names,
        is_absolute(render(absolute, names)) == absolute,
{
    let e = Seq::<Seq<char>>::empty();
    assert(e + names =~= names);
    lemma_kept_append(e, names);
    if absolute {
        let s = render(absolute, names);
        assert(s =~= Seq::<char>::empty().push('/') + join(names));
        lemma_split_concat(Seq::empty(), join(names));
        let lead = seq![Seq::<char>::empty()];
        assert(split(Seq::<char>::empty()) =~= lead);
        assert(kept(lead) =~= e) by {
            assert(lead.drop_last() =~= e);
        }
        lemma_kept_append(lead, names);
        if names.len() == 0 {
            assert(split(join(names)) =~= lead);
            assert((lead + lead).drop_last() =~= lead);
            assert(kept(lead + lead) =~= e);
        } else {
            lemma_split_join(names);
        }
    } else if names.len() == 0 {
        lemma_split_single(seq!['.']);
        assert(seq![seq!['.']].drop_last() =~= e);
        assert(kept(seq![seq!['.']]) =~= e);
        assert(names =~= e);
    } else {
        lemma_split_join(names);
        assert(is_plain(names[0]));
        lemma_join_first(names);
        assert(names[0][0] != '/') by {
            assert(!names[0].contains('/'));
        }
    }
}

proof fn lemma_join_first(names: Seq<Seq<char>>)
    requires
        names.len() > 0,
        names[0].len() > 0,
    ensures
        join(names).len() > 0,
        join(names)[0] == names[0][0],
    decreases names.len(),
{
    if names.len() > 1 {
        lemma_join_first(names.drop_last());
    }
}

/// Normalising a normal form changes nothing.
pub proof fn normalize_is_idempotent(s: Seq<char>)
    ensures
        normalized(normalized(s)) == normalized(s),
{
    lemma_parts_are_names(s);
    lemma_parts_of_render(is_absolute(s), parts_of(s));
}

/// Two paths have the same normal form exactly when both start at the root or
/// both do not, and they go through the same names.
pub proof fn normal_form_is_canonical(a: Seq<char>, b: Seq<char>)
    ensures
        normalized(a) == normalized(b) <==> (is_absolute(a) == is_absolute(b) && parts_of(a)
            == parts_of(b)),
{
    lemma_parts_are_names(a);
    lemma_parts_are_names(b);
    lemma_parts_of_render(is_absolute(a), parts_of(a));
    lemma_parts_of_render(is_absolute(b), parts_of(b));
}

/// The pieces between the slashes of `path`.
pub fn split_slash(path: &str) -> (parts: Vec<String>)
    ensures
        texts(parts@) == split(path@),
{
    let chars = to_chars(path);
    let mut parts: Vec<String> = Vec::new();
    let mut piece: String = String::new();
    let mut i: usize = 0;
    proof {
        assert(chars@.take(0) =~= Seq::empty());
        assert(texts(parts@).push(piece@) =~= seq![Seq::<char>::empty()]);
    }
    while i < chars.len()
        invariant
            0 <= i <= chars@.len(),
            texts(parts@).push(piece@) == split(chars@.take(i as int)),
        decreases chars@.len() - i,
    {
        let ghost before = texts(parts@).push(piece@);
        let c = chars[i];
        proof {
            let next = chars@.take(i + 1);
            assert(next.drop_last() =~= chars@.take(i as int));
            assert(next.last() == c);
        }
        if c == '/' {
            let full = piece;
            parts.push(full);
            piece = String::new();
            assert(texts(parts@).push(piece@) =~= before.push(Seq::empty()));
        } else {
            piece.push(c);
            assert(texts(parts@).push(piece@) =~= before.drop_last().push(before.last().push(c)));
        }
        i = i + 1;
    }
    assert(chars@.take(i as int) =~= path@);
    let ghost before = texts(parts@);
    let ghost last = piece@;
    parts.push(piece);
    assert(texts(parts@) =~= before.push(last));
    parts
}

/// The pieces with a slash between each two.
pub fn join_slash(parts: &Vec<String>) -> (s: String)
    ensures
        s@ == join(texts(parts@)),
{
    let mut s: String = String::new();
    let mut i: usize = 0;
    let ghost all = texts(parts@);
    while i < parts.len()
        invariant
            0 <= i <= parts@.len(),
            all == texts(parts@),
            s@ == join(all.take(i as int)),
        decreases parts@.len() - i,
    {
        let ghost next = all.take(i + 1);
        proof {
            assert(next.drop_last() =~= all.take(i as int));
            assert(next.last() == parts@[i as int]@);
        }
        if i > 0 {
            s.push('/');
        } else {
            assert(s@ + parts@[0]@ =~= parts@[0]@);
        }
        s.append(parts[i].as_str());
        assert(s@ =~= join(next));
        i = i + 1;
    }
    assert(all.take(i as int) =~= all);
    s
}

/// The names that a path goes through.
pub fn path_parts(path: &str) -> (parts: Vec<String>)
    ensures
        texts(parts@) == parts_of(path@),
{
    let pieces = split_slash(path);
    let mut parts: Vec<String> = Vec::new();
    let mut i: usize = 0;
    let ghost all = texts(pieces@);
    proof {
        assert(all.take(0) =~= Seq::empty());
        assert(texts(parts@) =~= Seq::empty());
    }
    while i < pieces.len()
        invariant
            0 <= i <= pieces@.len(),
            all == texts(pieces@),
            texts(parts@) == kept(all.take(i as int)),
        decreases pieces@.len() - i,
    {
        let ghost before = texts(parts@);
        proof {
            reveal_strlit(".");
            reveal_strlit("..");
            let next = all.take(i + 1);
            assert(next.drop_last() =~= all.take(i as int));
            assert(next.last() == pieces@[i as int]@);
            assert("."@ =~= seq!['.']);
            assert(".."@ =~= seq!['.', '.']);
        }
        let piece: &str = pieces[i].as_str();
        if piece.is_empty() || str_eq(piece, ".") {
        } else if str_eq(piece, "..") {
            let ghost n = parts@.len();
            let _ = parts.pop();
            proof {
                if n > 0 {
                    assert(texts(parts@) =~= before.drop_last());
                } else {
                    assert(texts(parts@) =~= before);
                }
            }
        } else {
            parts.push(piece.to_owned());
            assert(texts(parts@) =~= before.push(pieces@[i as int]@));
        }
        i = i + 1;
    }
    assert(all.take(i as int) =~= all);
    parts
}

/// The path with the given names.
pub fn render_path(absolute: bool, parts: &Vec<String>) -> (r: String)
    ensures
        r@ == render(absolute, texts(parts@)),
{
    let body = join_slash(parts);
    proof {
        reveal_strlit("/");
        reveal_strlit(".");
        assert("/"@ =~= seq!['/']);
        assert("."@ =~= seq!['.']);
    }
    if absolute {
        concat("/", body.as_str())
    } else if parts.len() == 0 {
        ".".to_owned()
    } else {
        body
    }
}

/// The normal form of a path: no empty, `.` or `..` pieces, `.` for a relative
/// path without names. A `..` with nothing before it is dropped.
pub fn normalize_path(path: &str) -> (r: String)
    ensures
        r@ == normalized(path@),
{
    let parts = path_parts(path);
    render_path(starts_with_slash(path), &parts)
}

/// Whether the first character is a slash.
pub fn starts_with_slash(path: &str) -> (r: bool)
    ensures
        r == is_absolute(path@),
{
    let chars = to_chars(path);
    chars.len() > 0 && chars[0] == '/'
}

/// A path as seen from a working directory.
pub open spec fn resolved(cwd: Seq<char>, path: Seq<char>) -> Seq<char> {
    if is_absolute(path) {
        normalized(path)
    } else if cwd == seq!['/'] {
        normalized(seq!['/'] + path)
    } else {
        normalized(cwd.push('/') + path)
    }
}

/// A path as seen from a working directory, in normal form.
pub fn resolve_path(cwd: &str, path: &str) -> (r: String)
    ensures
        r@ == resolved(cwd@, path@),
{
    proof {
        reveal_strlit("/");
        assert("/"@ =~= seq!['/']);
        assert(cwd@ + seq!['/'] + path@ =~= cwd@.push('/') + path@);
    }
    if starts_with_slash(path) {
        normalize_path(path)
    } else if str_eq(cwd, "/") {
        normalize_path(concat("/", path).as_str())
    } else {
        normalize_path(concat3(cwd, "/", path).as_str())
    }
}

/// The text behind its leading slashes.
pub open spec fn without_leading_slashes(s: Seq<char>) -> Seq<char>
    decreases s.len(),
{
    if s.len() > 0 && s[0] == '/' {
        without_leading_slashes(s.drop_first())
    } else {
        s
    }
}

/// A logical path placed below a root directory.
pub open spec fn rooted(root: Seq<char>, logical: Seq<char>) -> Seq<char> {
    let r = normalized(root);
    let l = normalized(logical);
    if r == seq!['/'] {
        l
    } else if l == seq!['/'] {
        r
    } else {
        normalized(r.push('/') + without_leading_slashes(l))
    }
}

fn trim_leading_slashes(s: &str) -> (r: String)
    ensures
        r@ == without_leading_slashes(s@),
{
    let chars = to_chars(s);
    let mut i: usize = 0;
    assert(chars@.skip(0) =~= s@);
    while i < chars.len() && chars[i] == '/'
        invariant
            0 <= i <= chars@.len(),
            without_leading_slashes(chars@.skip(i as int)) == without_leading_slashes(s@),
        decreases chars@.len() - i,
    {
        assert(chars@.skip(i as int).drop_first() =~= chars@.skip(i + 1));
        i = i + 1;
    }
    assert(chars@.subrange(i as int, chars@.len() as int) =~= chars@.skip(i as int));
    from_chars(&chars, i, chars.len())
}

/// A logical path placed below a root directory, in normal form.
pub fn apply_root(root: &str, logical_path: &str) -> (r: String)
    ensures
        r@ == rooted(root@, logical_path@),
{
    proof {
        reveal_strlit("/");
        assert("/"@ =~= seq!['/']);
    }
    let root = normalize_path(root);
    let logical_path = normalize_path(logical_path);
    if str_eq(root.as_str(), "/") {
        return logical_path;
    }
    if str_eq(logical_path.as_str(), "/") {
        return root;
    }
    let tail = trim_leading_slashes(logical_path.as_str());
    assert(root@ + seq!['/'] + tail@ =~= root@.push('/') + tail@);
    normalize_path(concat3(root.as_str(), "/", tail.as_str()).as_str())
}

/// A path as seen from a working directory inside a root directory.
pub fn resolve_path_with_root(root: &str, cwd: &str, path: &str) -> (r: String)
    ensures
        r@ == rooted(root@, resolved(cwd@, path@)),
{
    let logical = resolve_path(cwd, path);
    apply_root(root, logical.as_str())
}

/// Placing a path below a root puts the names of the path behind those of the
/// root, whatever `..` pieces the path was written with.
pub proof fn rooted_path_names(root: Seq<char>, logical: Seq<char>)
    requires
        is_absolute(root),
        is_absolute(logical),
    ensures
        rooted(root, logical) == render(true, parts_of(root) + parts_of(logical)),
{
    let r = normalized(root);
    let l = normalized(logical);
    let nr = parts_of(root);
    let nl = parts_of(logical);
    lemma_parts_are_names(root);
    lemma_parts_are_names(logical);
    lemma_parts_of_render(true, nr);
    lemma_parts_of_render(true, nl);
    if r == seq!['/'] {
        lemma_parts_of_render(true, Seq::empty());
        assert(render(true, Seq::empty()) =~= seq!['/']);
        assert(nr =~= Seq::empty());
        assert(nr + nl =~= nl);
    } else if l == seq!['/'] {
        lemma_parts_of_render(true, Seq::empty());
        assert(render(true, Seq::empty()) =~= seq!['/']);
        assert(nl =~= Seq::empty());
        assert(nr + nl =~= nr);
    } else {
        let tail = without_leading_slashes(l);
        assert(l.drop_first() =~= join(nl));
        if nl.len() == 0 {
            assert(l =~= seq!['/']);
        }
        assert(is_plain(nl[0]) && !nl[0].contains('/'));
        lemma_join_first(nl);
        assert(nl[0].contains(nl[0][0]));
        assert(without_leading_slashes(l.drop_first()) == l.drop_first());
        assert(tail == join(nl));
        lemma_split_concat(r, tail);
        lemma_split_join(nl);
        lemma_kept_append(split(r), nl);
        assert(is_absolute(r.push('/') + tail)) by {
            assert((r.push('/') + tail)[0] == r[0]);
        }
    }
}

/// A path resolved inside a root never leaves it: the names of the root stand
/// in front of whatever the path adds.
pub proof fn resolution_stays_below_root(root: Seq<char>, cwd: Seq<char>, path: Seq<char>)
    requires
        is_absolute(root),
        is_absolute(cwd),
    ensures
        ({
            let r = rooted(root, resolved(cwd, path));
            let n = parts_of(root).len() as int;
            &&& is_absolute(r)
            &&& n <= parts_of(r).len()
            &&& parts_of(r).take(n) == parts_of(root)
        }),
{
    let logical = resolved(cwd, path);
    let source = if is_absolute(path) {
        path
    } else if cwd == seq!['/'] {
        seq!['/'] + path
    } else {
        cwd.push('/') + path
    };
    assert(is_absolute(source));
    lemma_parts_are_names(source);
    lemma_parts_of_render(true, parts_of(source));
    rooted_path_names(root, logical);
    let names = parts_of(root) + parts_of(logical);
    lemma_parts_are_names(root);
    lemma_parts_are_names(logical);
    assert(all_names(names)) by {
        assert forall|i: int| 0 <= i < names.len() implies is_plain(#[trigger] names[i])
            && !names[i].contains('/') by {
            if i < parts_of(root).len() {
                assert(names[i] == parts_of(root)[i]);
            } else {
                assert(names[i] == parts_of(logical)[i - parts_of(root).len()]);
            }
        }
    }
    lemma_parts_of_render(true, names);
    assert(names.take(parts_of(root).len() as int) =~= parts_of(root));
}

/// The directory that holds a path; the root for a path of one name or none.
pub open spec fn parent_of(s: Seq<char>) -> Seq<char> {
    if parts_of(s).len() <= 1 {
        seq!['/']
    } else {
        render(is_absolute(s), parts_of(s).drop_last())
    }
}

/// The directory that holds a path; the root for a path of one name or none.
pub fn parent_path(path: &str) -> (r: String)
    ensures
        r@ == parent_of(path@),
{
    let mut parts = path_parts(path);
    if parts.len() <= 1 {
        proof {
            reveal_strlit("/");
            assert("/"@ =~= seq!['/']);
        }
        return "/".to_owned();
    }
    let ghost all = texts(parts@);
    let _ = parts.pop();
    assert(texts(parts@) =~= all.drop_last());
    render_path(starts_with_slash(path), &parts)
}

/// The last piece that is not empty, as it was written.
pub open spec fn last_piece(parts: Seq<Seq<char>>) -> Seq<char>
    decreases parts.len(),
{
    if parts.len() == 0 {
        Seq::empty()
    } else if parts.last().len() > 0 {
        parts.last()
    } else {
        last_piece(parts.drop_last())
    }
}

/// The last piece of a path that is not empty.
pub fn file_name(path: &str) -> (r: String)
    ensures
        r@ == last_piece(split(path@)),
{
    let parts = split_slash(path);
    let ghost all = texts(parts@);
    let mut i: usize = parts.len();
    assert(all.take(i as int) =~= all);
    while i > 0
        invariant
            0 <= i <= parts@.len(),
            all == texts(parts@),
            all == split(path@),
            last_piece(all.take(i as int)) == last_piece(all),
        decreases i,
    {
        assert(all.take(i as int).drop_last() =~= all.take(i - 1));
        assert(all.take(i as int).last() == parts@[i - 1]@);
        if !parts[i - 1].as_str().is_empty() {
            return parts[i - 1].clone();
        }
        i = i - 1;
    }
    String::new()
}

/// The part of a path behind a `/musl` or `/glibc` tree, or the path itself.
pub open spec fn local_part(norm: Seq<char>) -> Seq<char> {
    if has_prefix(norm, "/musl"@) && (norm.len() == "/musl"@.len() || norm["/musl"@.len() as int]
        == '/') {
        behind(norm, "/musl"@)
    } else if has_prefix(norm, "/glibc"@) && (norm.len() == "/glibc"@.len()
        || norm["/glibc"@.len() as int] == '/') {
        behind(norm, "/glibc"@)
    } else {
        norm
    }
}

/// What follows a prefix, `/` where nothing does.
pub open spec fn behind(s: Seq<char>, prefix: Seq<char>) -> Seq<char> {
    if s.len() == prefix.len() {
        seq!['/']
    } else {
        s.skip(prefix.len() as int)
    }
}

/// Whether `s` is the directory `dir` or lies below it.
pub open spec fn at_or_below(s: Seq<char>, dir: Seq<char>) -> bool {
    s == dir || has_prefix(s, dir.push('/'))
}

/// Whether a path lies in one of the directories kept in memory only.
pub open spec fn volatile_dir(path: Seq<char>) -> bool {
    let local = local_part(normalized(path));
    at_or_below(local, "/tmp"@) || at_or_below(local, "/var/tmp"@) || at_or_below(
        local,
        "/dev/shm"@,
    )
}

/// Whether `s` is the directory `dir` or lies below it.
pub fn is_at_or_below(s: &str, dir: &str) -> (r: bool)
    ensures
        r == at_or_below(s@, dir@),
{
    proof {
        reveal_strlit("/");
        assert(dir@ + "/"@ =~= dir@.push('/'));
    }
    str_eq(s, dir) || starts_with(s, concat(dir, "/").as_str())
}

fn behind_tree(norm: &str, tree: &str) -> (r: Option<String>)
    ensures
        match r {
            Some(local) => has_prefix(norm@, tree@) && (norm@.len() == tree@.len()
                || norm@[tree@.len() as int] == '/') && local@ == behind(norm@, tree@),
            None => !(has_prefix(norm@, tree@) && (norm@.len() == tree@.len()
                || norm@[tree@.len() as int] == '/')),
        },
{
    match strip_prefix(norm, tree) {
        Some(tail) => {
            if tail.as_str().is_empty() {
                proof {
                    reveal_strlit("/");
                    assert("/"@ =~= seq!['/']);
                }
                Some("/".to_owned())
            } else if starts_with_slash(tail.as_str()) {
                Some(tail)
            } else {
                None
            }
        },
        None => None,
    }
}

/// The part of a path behind a `/musl` or `/glibc` tree, or the path itself.
pub fn local_device_path(path: &str) -> (r: String)
    ensures
        r@ == local_part(path@),
{
    match behind_tree(path, "/musl") {
        Some(local) => local,
        None => match behind_tree(path, "/glibc") {
            Some(local) => local,
            None => path.to_owned(),
        },
    }
}

/// Whether a path lies in one of the directories kept in memory only: `/tmp`,
/// `/var/tmp` or `/dev/shm`, in the main tree or in the two library trees.
pub fn is_memfs_volatile_dir(path: &str) -> (r: bool)
    ensures
        r == volatile_dir(path@),
{
    let norm = normalize_path(path);
    let local = local_device_path(norm.as_str());
    is_at_or_below(local.as_str(), "/tmp") || is_at_or_below(local.as_str(), "/var/tmp")
        || is_at_or_below(local.as_str(), "/dev/shm")
}

/// Whether new nodes below a directory are created in memory.
pub fn is_memfs_overlay_create_dir(path: &str) -> (r: bool)
    ensures
        r == volatile_dir(path@),
{
    let norm = normalize_path(path);
    proof {
        normalize_is_idempotent(path@);
    }
    is_memfs_volatile_dir(norm.as_str())
}

/// What the names directly inside `parent` are preceded by.
pub open spec fn child_base(parent: Seq<char>) -> Seq<char> {
    if parent == seq!['/'] {
        parent
    } else {
        parent.push('/')
    }
}

/// The name of `child` inside `parent`, where it lies directly in it.
pub open spec fn child_of(parent: Seq<char>, child: Seq<char>) -> Option<Seq<char>> {
    let base = child_base(parent);
    if has_prefix(child, base) {
        let rest = child.skip(base.len() as int);
        if rest.len() == 0 || rest.contains('/') {
            None
        } else {
            Some(rest)
        }
    } else {
        None
    }
}

fn holds_slash(s: &str) -> (r: bool)
    ensures
        r == s@.contains('/'),
{
    let chars = to_chars(s);
    let mut i: usize = 0;
    while i < chars.len()
        invariant
            chars@ == s@,
            0 <= i <= chars@.len(),
            forall|j: int| 0 <= j < i ==> chars@[j] != '/',
        decreases chars@.len() - i,
    {
        if chars[i] == '/' {
            return true;
        }
        i = i + 1;
    }
    false
}

/// The name of `child` inside `parent`, where it lies directly in it.
pub fn child_name(parent: &str, child: &str) -> (r: Option<String>)
    ensures
        match r {
            Some(name) => child_of(parent@, child@) == Some(name@),
            None => child_of(parent@, child@) is None,
        },
{
    proof {
        reveal_strlit("/");
        assert("/"@ =~= seq!['/']);
        assert(parent@ + "/"@ =~= parent@.push('/'));
    }
    let base = if str_eq(parent, "/") {
        parent.to_owned()
    } else {
        concat(parent, "/")
    };
    match strip_prefix(child, base.as_str()) {
        Some(rest) => {
            if rest.as_str().is_empty() || holds_slash(rest.as_str()) {
                None
            } else {
                Some(rest)
            }
        },
        None => None,
    }
}

/// Whether `child` is written as `parent`, a slash and something more.
pub open spec fn descends(parent: Seq<char>, child: Seq<char>) -> bool {
    has_prefix(child, parent.push('/'))
}

/// Whether `child` is written as `parent`, a slash and something more.
pub fn is_descendant(parent: &str, child: &str) -> (r: bool)
    ensures
        r == descends(parent@, child@),
{
    proof {
        reveal_strlit("/");
        assert(parent@ + "/"@ =~= parent@.push('/'));
    }
    starts_with(child, concat(parent, "/").as_str())
}

proof fn lemma_join_concat(a: Seq<Seq<char>>, b: Seq<Seq<char>>)
    requires
        a.len() > 0,
        b.len() > 0,
    ensures
        join(a + b) == join(a).push('/') + join(b),
    decreases b.len(),
{
    if b.len() == 1 {
        assert((a + b).drop_last() =~= a);
    } else {
        lemma_join_concat(a, b.drop_last());
        assert((a + b).drop_last() =~= a + b.drop_last());
        assert(join(a + b) =~= join(a).push('/') + join(b));
    }
}

/// One path descends from another exactly when its names continue those of the
/// other.
pub proof fn descendant_continues_names(a: Seq<Seq<char>>, b: Seq<Seq<char>>)
    requires
        all_names(a),
        all_names(b),
        a.len() > 0,
    ensures
        descends(render(true, a), render(true, b)) <==> a.len() < b.len() && b.take(a.len() as int)
            == a,
{
    let pa = render(true, a);
    let pb = render(true, b);
    if descends(pa, pb) {
        let t = pb.skip(pa.len() as int + 1);
        assert(pb =~= pa.push('/') + t);
        lemma_split_concat(pa, t);
        assert(pa =~= Seq::<char>::empty().push('/') + join(a));
        assert(pb =~= Seq::<char>::empty().push('/') + join(b));
        lemma_split_concat(Seq::empty(), join(a));
        lemma_split_concat(Seq::empty(), join(b));
        lemma_split_join(a);
        let lead = split(Seq::<char>::empty());
        assert(lead.len() == 1);
        lemma_split_nonempty(t);
        assert(lead + split(join(b)) =~= lead + a + split(t));
        let sb = split(join(b));
        assert(sb =~= a + split(t)) by {
            assert forall|i: int| 0 <= i < sb.len() implies sb[i] == (a + split(t))[i] by {
                assert((lead + sb)[i + 1] == sb[i]);
                assert((lead + a + split(t))[i + 1] == (a + split(t))[i]);
            }
            assert((lead + sb).len() == sb.len() + 1);
        }
        if b.len() == 0 {
            assert(sb.len() == 1);
        } else {
            lemma_split_join(b);
            assert(b.take(a.len() as int) =~= a);
        }
    }
    if a.len() < b.len() && b.take(a.len() as int) == a {
        let rest = b.skip(a.len() as int);
        assert(b =~= a + rest);
        lemma_join_concat(a, rest);
        assert(pb =~= pa.push('/') + join(rest));
        assert(pb.take(pa.push('/').len() as int) =~= pa.push('/'));
    }
}

/// Every path of at least one name lies directly in its parent, under its last
/// name.
pub proof fn child_of_its_parent(s: Seq<char>)
    requires
        is_absolute(s),
        parts_of(s).len() > 0,
    ensures
        child_of(parent_of(s), normalized(s)) == Some(parts_of(s).last()),
{
    let names = parts_of(s);
    lemma_parts_are_names(s);
    let name = names.last();
    assert(is_plain(names[names.len() - 1]) && !name.contains('/'));
    let p = parent_of(s);
    let n = normalized(s);
    if names.len() == 1 {
        assert(names =~= seq![name]);
        assert(n.take(1) =~= seq!['/']);
        assert(n.skip(1) =~= name);
    } else {
        let front = names.drop_last();
        lemma_parts_are_names(s);
        assert(is_plain(front[0])) by {
            assert(front[0] == names[0]);
        }
        lemma_join_first(front);
        assert(p.len() > 1);
        assert(n =~= p.push('/') + name);
        assert(n.take(p.len() as int + 1) =~= p.push('/'));
        assert(n.skip(p.len() as int + 1) =~= name);
    }
}

} // verus!
