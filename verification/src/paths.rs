//! Paths written with slashes: their names, what they may reach, and how they are joined.

use crate::text::{
    after_last, chars_of, ends_with, find_after_last, pieces, same, split, text_of, texts,
};
#[allow(unused_imports)]
use crate::text::{ends, law_before_and_after, lemma_pos, lemma_pos_is, pos};
use vstd::prelude::*;

verus! {

/// A part between two slashes that names something: not empty, and not the directory itself.
pub open spec fn is_name(part: Seq<char>) -> bool {
    part.len() > 0 && part != "."@
}

pub open spec fn only_names(parts: Seq<Seq<char>>) -> Seq<Seq<char>>
    decreases parts.len(),
{
    if parts.len() == 0 {
        seq![]
    } else if is_name(parts.last()) {
        only_names(parts.drop_last()).push(parts.last())
    } else {
        only_names(parts.drop_last())
    }
}

/// The names that a path goes through, `..` among them.
pub open spec fn names(path: Seq<char>) -> Seq<Seq<char>> {
    only_names(pieces(path, '/'))
}

pub open spec fn absolute(path: Seq<char>) -> bool {
    path.len() > 0 && path[0] == '/'
}

/// A path that may leave the directory it is taken in: absolute, or with a `..` in it.
pub open spec fn escapes(path: Seq<char>) -> bool {
    absolute(path) || names(path).contains(".."@)
}

/// The names that an imported bundle has no use for.
pub open spec fn is_junk_name(name: Seq<char>) -> bool {
    ||| name == ".git"@
    ||| name == ".obsidian"@
    ||| name == ".trash"@
    ||| name == "__MACOSX"@
    ||| name == ".DS_Store"@
    ||| name == "Thumbs.db"@
}

/// A path through a name that an imported bundle has no use for.
pub open spec fn is_junk(path: Seq<char>) -> bool {
    exists|i: int| 0 <= i < names(path).len() && is_junk_name(#[trigger] names(path)[i])
}

/// `name` without what follows its last dot, unless that dot is its first character.
pub open spec fn stem(name: Seq<char>) -> Seq<char> {
    let tail = after_last(name, '.');
    if name.len() - tail.len() <= 1 {
        name
    } else {
        name.take(name.len() - tail.len() - 1)
    }
}

/// The name that a path ends in, if it ends in one.
pub open spec fn file_name(path: Seq<char>) -> Option<Seq<char>> {
    let ns = names(path);
    if ns.len() > 0 && ns.last() != ".."@ {
        Some(ns.last())
    } else {
        None
    }
}

/// `path` taken in the directory `root`.
pub open spec fn under(root: Seq<char>, path: Seq<char>) -> Seq<char> {
    if absolute(path) || root.len() == 0 {
        path
    } else if root.last() == '/' {
        root + path
    } else {
        root.push('/') + path
    }
}

/// `path` is `root` or lies in it: `root`'s names are the first names of `path`.
pub open spec fn within(root: Seq<char>, path: Seq<char>) -> bool {
    &&& absolute(root) == absolute(path)
    &&& names(root).len() <= names(path).len()
    &&& names(path).take(names(root).len() as int) == names(root)
}

/// A file name with the extension `md`.
pub open spec fn is_markdown_name(name: Seq<char>) -> bool {
    name.len() > 3 && ends(name, ".md"@)
}

pub proof fn lemma_after_last(s: Seq<char>, c: char)
    ensures
        after_last(s, c).len() <= s.len(),
        after_last(s, c) == s.skip(s.len() - after_last(s, c).len()),
        after_last(s, c).len() < s.len() ==> s[s.len() - after_last(s, c).len() - 1] == c,
    decreases s.len(),
{
    lemma_pos(s, c);
    let i = pos(s, c);
    if i < s.len() {
        lemma_after_last(s.skip(i + 1), c);
        let t = after_last(s, c);
        assert(s.skip(i + 1).skip(s.len() - i - 1 - t.len()) =~= s.skip(s.len() - t.len()));
    } else {
        assert(s.skip(0) =~= s);
    }
}

/// The names that a path goes through, `..` among them.
pub fn path_names(path: &str) -> (v: Vec<String>)
    ensures
        texts(v@) == names(path@),
{
    let parts = split(path, '/');
    let ghost all = texts(parts@);
    let mut v: Vec<String> = Vec::new();
    let mut i: usize = 0;
    assert(all.take(0) =~= seq![]);
    while i < parts.len()
        invariant
            all == texts(parts@),
            i <= parts@.len(),
            texts(v@) == only_names(all.take(i as int)),
        decreases parts@.len() - i,
    {
        assert(all.take(i + 1).drop_last() =~= all.take(i as int));
        assert(all.take(i + 1).last() == parts@[i as int]@);
        let ghost done = v@;
        if !parts[i].as_str().is_empty() && !same(parts[i].as_str(), ".") {
            v.push(parts[i].clone());
            assert(texts(v@) =~= texts(done).push(parts@[i as int]@));
        }
        i += 1;
    }
    assert(all.take(parts@.len() as int) =~= all);
    v
}

pub fn is_absolute(path: &str) -> (b: bool)
    ensures
        b == absolute(path@),
{
    let cs = chars_of(path);
    cs.len() > 0 && cs[0] == '/'
}

/// Whether a list of names holds the given one.
pub fn lists(names: &Vec<String>, name: &str) -> (b: bool)
    ensures
        b == texts(names@).contains(name@),
{
    let mut i: usize = 0;
    while i < names.len()
        invariant
            i <= names@.len(),
            forall|j: int| 0 <= j < i ==> (#[trigger] texts(names@)[j]) != name@,
        decreases names@.len() - i,
    {
        if same(names[i].as_str(), name) {
            assert(texts(names@)[i as int] == name@);
            return true;
        }
        i += 1;
    }
    false
}

/// Whether a path may leave the directory it is taken in.
pub fn escapes_root(path: &str) -> (b: bool)
    ensures
        b == escapes(path@),
{
    is_absolute(path) || lists(&path_names(path), "..")
}

/// Whether an entry of an imported bundle is left out: version control, editor and system litter.
pub fn is_import_junk(rel: &str) -> (b: bool)
    ensures
        b == is_junk(rel@),
{
    let ns = path_names(rel);
    let mut i: usize = 0;
    while i < ns.len()
        invariant
            i <= ns@.len(),
            texts(ns@) == names(rel@),
            forall|j: int| 0 <= j < i ==> !is_junk_name(#[trigger] names(rel@)[j]),
        decreases ns@.len() - i,
    {
        let n = ns[i].as_str();
        assert(n@ == texts(ns@)[i as int]);
        if same(n, ".git") || same(n, ".obsidian") || same(n, ".trash") || same(n, "__MACOSX")
            || same(n, ".DS_Store") || same(n, "Thumbs.db") {
            return true;
        }
        i += 1;
    }
    false
}

/// A name without its extension.
pub fn stem_of(name: &str) -> (r: String)
    ensures
        r@ == stem(name@),
{
    let cs = chars_of(name);
    let n: usize = cs.len();
    let i: usize = find_after_last(&cs, 0, n, '.');
    assert(cs@.subrange(0, n as int) =~= name@);
    proof {
        lemma_after_last(name@, '.');
    }
    if i <= 1 {
        name.to_owned()
    } else {
        let r = text_of(&cs, 0, i - 1);
        assert(r@ =~= name@.take(i - 1));
        r
    }
}

/// The stem of the name that a path ends in.
pub fn file_stem(path: &str) -> (r: Option<String>)
    ensures
        r is Some <==> file_name(path@) is Some,
        r matches Some(s) ==> s@ == stem(file_name(path@)->0),
{
    let ns = path_names(path);
    let n: usize = ns.len();
    if n == 0 {
        return None;
    }
    let last = ns[n - 1].as_str();
    assert(last@ == texts(ns@).last());
    if same(last, "..") {
        None
    } else {
        Some(stem_of(last))
    }
}

/// A path taken in a directory.
pub fn join_path(root: &str, path: &str) -> (r: String)
    ensures
        r@ == under(root@, path@),
{
    if is_absolute(path) || root.is_empty() {
        return path.to_owned();
    }
    let mut r = root.to_owned();
    let cs = chars_of(root);
    if cs[cs.len() - 1] != '/' {
        r.push('/');
    }
    r.append(path);
    r
}

/// Whether a path is a directory or lies in it.
pub fn is_within(root: &str, path: &str) -> (b: bool)
    ensures
        b == within(root@, path@),
{
    if is_absolute(root) != is_absolute(path) {
        return false;
    }
    let rs = path_names(root);
    let ps = path_names(path);
    if rs.len() > ps.len() {
        return false;
    }
    let ghost r = names(root@);
    let ghost p = names(path@);
    let mut i: usize = 0;
    while i < rs.len()
        invariant
            i <= rs@.len() <= ps@.len(),
            texts(rs@) == r,
            texts(ps@) == p,
            r == names(root@),
            p == names(path@),
            forall|j: int| 0 <= j < i ==> #[trigger] p[j] == r[j],
        decreases rs@.len() - i,
    {
        assert(rs@[i as int]@ == r[i as int]);
        assert(ps@[i as int]@ == p[i as int]);
        if !same(rs[i].as_str(), ps[i].as_str()) {
            assert(p.take(r.len() as int)[i as int] != r[i as int]);
            return false;
        }
        i += 1;
    }
    assert(p.take(r.len() as int) =~= r);
    true
}

/// Whether a file name has the extension `md`.
pub fn has_markdown_name(name: &str) -> (b: bool)
    ensures
        b == is_markdown_name(name@),
{
    let cs = chars_of(name);
    cs.len() > 3 && ends_with(name, ".md")
}

proof fn lemma_pieces_of_joined(a: Seq<char>, b: Seq<char>)
    ensures
        pieces(a.push('/') + b, '/') == pieces(a, '/') + pieces(b, '/'),
    decreases a.len(),
{
    let s = a.push('/') + b;
    lemma_pos(a, '/');
    let i = pos(a, '/');
    lemma_pos_is(s, '/', i);
    if i < a.len() {
        lemma_pieces_of_joined(a.skip(i + 1), b);
        assert(s.skip(i + 1) =~= a.skip(i + 1).push('/') + b);
        assert(s.take(i) =~= a.take(i));
        assert(pieces(s, '/') =~= pieces(a, '/') + pieces(b, '/'));
    } else {
        assert(s.skip(i + 1) =~= b);
        assert(s.take(i) =~= a);
        assert(pieces(s, '/') =~= pieces(a, '/') + pieces(b, '/'));
    }
}

proof fn lemma_only_names_of_joined(a: Seq<Seq<char>>, b: Seq<Seq<char>>)
    ensures
        only_names(a + b) == only_names(a) + only_names(b),
    decreases b.len(),
{
    if b.len() == 0 {
        assert(a + b =~= a);
        assert(only_names(a) + only_names(b) =~= only_names(a));
    } else {
        assert((a + b).drop_last() =~= a + b.drop_last());
        assert((a + b).last() == b.last());
        lemma_only_names_of_joined(a, b.drop_last());
        assert(only_names(a + b) =~= only_names(a) + only_names(b));
    }
}

proof fn lemma_names_of_joined(a: Seq<char>, b: Seq<char>)
    ensures
        names(a.push('/') + b) == names(a) + names(b),
{
    lemma_pieces_of_joined(a, b);
    lemma_only_names_of_joined(pieces(a, '/'), pieces(b, '/'));
}

proof fn lemma_no_names()
    ensures
        names(seq![]) == Seq::<Seq<char>>::empty(),
{
    let e: Seq<char> = seq![];
    assert(pieces(e, '/') == seq![e]);
    assert(seq![e].drop_last() =~= Seq::<Seq<char>>::empty());
    reveal_with_fuel(only_names, 2);
    assert(only_names(seq![e]) =~= Seq::<Seq<char>>::empty());
}

/// A path without slashes goes through one name, itself.
pub proof fn lemma_plain_name(name: Seq<char>)
    requires
        is_name(name),
        forall|i: int| 0 <= i < name.len() ==> name[i] != '/',
    ensures
        names(name) == seq![name],
        !absolute(name),
{
    lemma_pos_is(name, '/', name.len() as int);
    assert(pieces(name, '/') == seq![name]);
    assert(seq![name].drop_last() =~= Seq::<Seq<char>>::empty());
    reveal_with_fuel(only_names, 2);
    assert(only_names(seq![name]) =~= seq![name]);
}

/// A path that does not escape stays inside the directory it is taken in, and goes through
/// exactly its own names below it.
pub proof fn law_safe_paths_stay_inside(root: Seq<char>, path: Seq<char>)
    requires
        !escapes(path),
    ensures
        within(root, under(root, path)),
        names(under(root, path)) == names(root) + names(path),
{
    lemma_no_names();
    if root.len() == 0 {
        assert(root =~= seq![]);
        assert(names(root) + names(path) =~= names(path));
    } else if root.last() == '/' {
        let r = root.drop_last();
        let e: Seq<char> = seq![];
        assert(root =~= r.push('/') + e);
        assert(root + path =~= r.push('/') + path);
        lemma_names_of_joined(r, e);
        lemma_names_of_joined(r, path);
        assert(names(r) + names(e) =~= names(r));
    } else {
        lemma_names_of_joined(root, path);
    }
    assert(names(under(root, path)).take(names(root).len() as int) =~= names(root));
}

/// The names of a path: those of its two parts around any slash, itself where there is no slash, and
/// none where it is empty or a single dot.
pub proof fn law_names_stand_between_slashes(a: Seq<char>, b: Seq<char>)
    ensures
        names(a + seq!['/'] + b) == names(a) + names(b),
        !a.contains('/') && a.len() > 0 && a != seq!['.'] ==> names(a) == seq![a],
        names(seq![]) == Seq::<Seq<char>>::empty(),
        names(seq!['.']) == Seq::<Seq<char>>::empty(),
{
    reveal_strlit(".");
    let dot = seq!['.'];
    assert("."@ =~= dot);
    lemma_no_names();
    lemma_names_of_joined(a, b);
    assert(a + seq!['/'] + b =~= a.push('/') + b);
    if !a.contains('/') && a.len() > 0 && a != seq!['.'] {
        assert forall|i: int| 0 <= i < a.len() implies a[i] != '/' by {
            assert(a.contains(a[i]));
        }
        lemma_plain_name(a);
    }
    lemma_pos_is(dot, '/', 1);
    assert(pieces(dot, '/') == seq![dot]);
    assert(seq![dot].drop_last() =~= Seq::<Seq<char>>::empty());
    reveal_with_fuel(only_names, 2);
    assert(only_names(seq![dot]) =~= Seq::<Seq<char>>::empty());
}

proof fn lemma_names_among(parts: Seq<Seq<char>>, x: Seq<char>)
    ensures
        only_names(parts).contains(x) <==> parts.contains(x) && is_name(x),
    decreases parts.len(),
{
    if parts.len() > 0 {
        let less = parts.drop_last();
        lemma_names_among(less, x);
        let all = only_names(parts);
        if parts.contains(x) && is_name(x) {
            let i = choose|i: int| 0 <= i < parts.len() && parts[i] == x;
            if i < less.len() {
                assert(less[i] == x);
                let k = choose|k: int| 0 <= k < only_names(less).len() && only_names(less)[k] == x;
                assert(all[k] == x);
            } else {
                assert(all[all.len() - 1] == x);
            }
        }
        if all.contains(x) {
            let k = choose|k: int| 0 <= k < all.len() && all[k] == x;
            if k < only_names(less).len() {
                assert(only_names(less)[k] == x);
                let i = choose|i: int| 0 <= i < less.len() && less[i] == x;
                assert(parts[i] == x);
            } else {
                assert(parts[parts.len() - 1] == x);
            }
        }
    }
}

/// A path may leave where it is taken exactly if it begins with a slash, or has two dots between slashes.
pub proof fn law_paths_that_escape(path: Seq<char>)
    ensures
        escapes(path) <==> (path.len() > 0 && path[0] == '/') || pieces(path, '/').contains(
            seq!['.', '.'],
        ),
{
    reveal_strlit(".");
    reveal_strlit("..");
    assert(".."@ =~= seq!['.', '.']);
    assert("."@.len() == 1);
    lemma_names_among(pieces(path, '/'), ".."@);
}

/// The stem of a name is what stands before its last dot; a name without a dot, or with none but at
/// its beginning, is its own stem.
pub proof fn law_stems(name: Seq<char>)
    ensures
        ({
            let t = stem(name);
            &&& t == name || (0 < t.len() < name.len() && t == name.take(t.len() as int)
                && name[t.len() as int] == '.' && !name.skip(t.len() as int + 1).contains('.'))
            &&& t == name ==> forall|i: int| 1 <= i < name.len() ==> name[i] != '.'
        }),
{
    law_before_and_after(name, '.');
    let tail = after_last(name, '.');
    let t = stem(name);
    if t != name {
        assert(name.skip(t.len() as int + 1) =~= tail);
    } else {
        assert forall|i: int| 1 <= i < name.len() implies name[i] != '.' by {
            let k = i - (name.len() - tail.len());
            if k >= 0 {
                assert(tail[k] == name[i]);
                assert(tail.contains(tail[k]));
            }
        }
    }
}

/// The name that a path ends in is its last one, unless that leads upwards.
pub proof fn law_file_names(path: Seq<char>)
    ensures
        match file_name(path) {
            Some(name) => names(path).len() > 0 && name == names(path)[names(path).len() - 1]
                && name != seq!['.', '.'],
            None => names(path).len() == 0 || names(path)[names(path).len() - 1] == seq!['.', '.'],
        },
{
    reveal_strlit("..");
    assert(".."@ =~= seq!['.', '.']);
}

/// A path is taken in a directory by writing it after the directory, with one slash between them; an
/// absolute path stays as it is.
pub proof fn law_paths_are_taken_in_directories(root: Seq<char>, path: Seq<char>)
    ensures
        path.len() > 0 && path[0] == '/' ==> under(root, path) == path,
        root.len() == 0 ==> under(root, path) == path,
        !(path.len() > 0 && path[0] == '/') && root.len() > 0 && root[root.len() - 1] != '/'
            ==> under(root, path) == root + seq!['/'] + path,
        !(path.len() > 0 && path[0] == '/') && root.len() > 0 && root[root.len() - 1] == '/'
            ==> under(root, path) == root + path,
{
    if root.len() > 0 {
        assert(root.push('/') + path =~= root + seq!['/'] + path);
    }
}

/// A path lies in a directory exactly if its names are those of the directory and then some, and both
/// are absolute or neither is.
pub proof fn law_paths_in_directories(root: Seq<char>, path: Seq<char>, rest: Seq<Seq<char>>)
    ensures
        (root.len() > 0 && root[0] == '/') == (path.len() > 0 && path[0] == '/') && names(path)
            == names(root) + rest ==> within(root, path),
        within(root, path) ==> (root.len() > 0 && root[0] == '/') == (path.len() > 0 && path[0]
            == '/') && names(path) == names(root) + names(path).skip(names(root).len() as int),
{
    let r = names(root);
    let p = names(path);
    if p == r + rest {
        assert(p.take(r.len() as int) =~= r);
    }
    if within(root, path) {
        assert(p =~= p.take(r.len() as int) + p.skip(r.len() as int));
    }
}

/// A Markdown name is a name with something before `.md`.
pub proof fn law_markdown_names(name: Seq<char>, stem: Seq<char>)
    ensures
        stem.len() > 0 ==> is_markdown_name(stem + seq!['.', 'm', 'd']),
        is_markdown_name(name) ==> name.len() > 3 && name == name.take(name.len() - 3) + seq![
            '.',
            'm',
            'd',
        ],
{
    reveal_strlit(".md");
    let md = seq!['.', 'm', 'd'];
    assert(".md"@ =~= md);
    let s = stem + md;
    assert(s.skip(s.len() - 3) =~= md);
    if is_markdown_name(name) {
        assert(name =~= name.take(name.len() - 3) + name.skip(name.len() - 3));
    }
}

/// A path is litter exactly if one of its names is one of these.
pub proof fn law_junk(path: Seq<char>)
    ensures
        is_junk(path) <==> names(path).contains(".git"@) || names(path).contains(".obsidian"@)
            || names(path).contains(".trash"@) || names(path).contains("__MACOSX"@) || names(
            path,
        ).contains(".DS_Store"@) || names(path).contains("Thumbs.db"@),
{
    let ns = names(path);
    if is_junk(path) {
        let i = choose|i: int| 0 <= i < ns.len() && is_junk_name(#[trigger] ns[i]);
        assert(ns.contains(ns[i]));
    }
    assert forall|x: Seq<char>| ns.contains(x) && is_junk_name(x) implies is_junk(path) by {
        let i = choose|i: int| 0 <= i < ns.len() && ns[i] == x;
        assert(is_junk_name(ns[i]));
    }
}

} // verus!
