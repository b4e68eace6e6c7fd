//! The file tree of a wiki: what a directory holds, and how it is shown.

use crate::order::{is_order, path_lt, paths, sorted_places, text_lt};
#[allow(unused_imports)]
use crate::order::precedes;
use crate::paths::has_markdown_name;
#[allow(unused_imports)]
use crate::paths::is_markdown_name;
use crate::text::{copy_texts, replace, same, texts};
#[allow(unused_imports)]
use crate::text::replaced;
use vstd::prelude::*;

verus! {

/// An entry of a directory, with what it holds where it is a directory itself.
pub struct RawEntry {
    pub name: String,
    pub kind: RawKind,
}

pub enum RawKind {
    Dir(Vec<RawEntry>),
    File,
    /// A link, a socket, or anything else that is neither.
    Other,
}

/// A file or a directory as the tree shows it.
pub struct TreeNode {
    pub name: String,
    pub path: String,
    /// What a directory holds; a file has none.
    pub children: Option<Vec<TreeNode>>,
}

/// Version control never shows.
pub open spec fn hidden(name: Seq<char>) -> bool {
    name == ".git"@ || name == ".gitkeep"@
}

pub open spec fn visible(e: RawEntry) -> bool {
    !hidden(e.name@) && !(e.kind is Other)
}

/// The places of the entries that are shown.
pub open spec fn shown_places(entries: Seq<RawEntry>) -> Seq<int>
    decreases entries.len(),
{
    if entries.len() == 0 {
        seq![]
    } else if visible(entries.last()) {
        shown_places(entries.drop_last()).push(entries.len() - 1)
    } else {
        shown_places(entries.drop_last())
    }
}

/// Directories stand before files, and names decide among each.
pub open spec fn listing_key(e: RawEntry) -> Seq<Seq<char>> {
    seq![
        if e.kind is Dir {
            "0"@
        } else {
            "1"@
        },
        e.name@,
    ]
}

pub open spec fn shown_keys(entries: Seq<RawEntry>) -> Seq<Seq<Seq<char>>> {
    Seq::new(
        shown_places(entries).len(),
        |i: int| listing_key(entries[shown_places(entries)[i]]),
    )
}

/// The path of a name below a directory of the wiki, whose own path is empty.
pub open spec fn child_path(dir: Seq<char>, name: Seq<char>) -> Seq<char> {
    if dir.len() == 0 {
        replaced(name, '\\', '/')
    } else {
        dir.push('/') + replaced(name, '\\', '/')
    }
}

/// `node` shows the entry `e` at `path`.
pub open spec fn shows(node: TreeNode, e: RawEntry, path: Seq<char>) -> bool
    decreases e,
{
    &&& node.name@ == e.name@
    &&& node.path@ == path
    &&& match e.kind {
        RawKind::Dir(inner) => node.children is Some && shows_all(
            node.children->0@,
            inner@,
            path,
        ),
        _ => node.children is None,
    }
}

/// `nodes` shows the visible entries of a directory, in the order of their keys.
pub open spec fn shows_all(nodes: Seq<TreeNode>, entries: Seq<RawEntry>, dir: Seq<char>) -> bool
    decreases entries,
{
    exists|order: Seq<usize>| #[trigger]
        is_order(shown_keys(entries), order) && nodes.len() == order.len() && (forall|i: int|
            0 <= i < nodes.len() && 0 <= #[trigger] shown_places(entries)[order[i] as int]
                < entries.len() ==> shows(
                nodes[i],
                entries[shown_places(entries)[order[i] as int]],
                child_path(dir, entries[shown_places(entries)[order[i] as int]].name@),
            ))
}

/// The number of files that an entry comes to.
pub open spec fn file_count(e: RawEntry) -> nat
    decreases e,
{
    match e.kind {
        RawKind::Dir(inner) => file_counts(inner@),
        RawKind::File => 1,
        RawKind::Other => 0,
    }
}

pub open spec fn file_counts(entries: Seq<RawEntry>) -> nat
    decreases entries,
{
    if entries.len() == 0 {
        0
    } else {
        file_counts(entries.drop_last()) + file_count(entries.last())
    }
}

/// The Markdown files in a directory at any depth, by the names that lead to them.
pub open spec fn markdown_in(entries: Seq<RawEntry>, dir: Seq<Seq<char>>) -> Seq<Seq<Seq<char>>>
    decreases entries,
{
    if entries.len() == 0 {
        seq![]
    } else {
        markdown_in(entries.drop_last(), dir) + markdown_at(entries.last(), dir)
    }
}

pub open spec fn markdown_at(e: RawEntry, dir: Seq<Seq<char>>) -> Seq<Seq<Seq<char>>>
    decreases e,
{
    match e.kind {
        RawKind::Dir(inner) => markdown_in(inner@, dir.push(e.name@)),
        RawKind::File => if is_markdown_name(e.name@) {
            seq![dir.push(e.name@)]
        } else {
            seq![]
        },
        RawKind::Other => seq![],
    }
}

proof fn lemma_shown_places(entries: Seq<RawEntry>)
    ensures
        shown_places(entries).len() <= entries.len(),
        forall|i: int|
            0 <= i < shown_places(entries).len() ==> 0 <= #[trigger] shown_places(entries)[i]
                < entries.len() && visible(entries[shown_places(entries)[i]]),
        forall|k: int|
            0 <= k < entries.len() && visible(#[trigger] entries[k]) ==> shown_places(
                entries,
            ).contains(k),
    decreases entries.len(),
{
    if entries.len() > 0 {
        let less = entries.drop_last();
        lemma_shown_places(less);
        let p = shown_places(entries);
        let q = shown_places(less);
        assert forall|i: int| 0 <= i < p.len() implies 0 <= #[trigger] p[i] < entries.len()
            && visible(entries[p[i]]) by {
            if i < q.len() {
                assert(p[i] == q[i]);
                assert(less[q[i]] == entries[p[i]]);
            }
        }
        assert forall|k: int| 0 <= k < entries.len() && visible(#[trigger] entries[k]) implies p.contains(k) by {
            if k < less.len() {
                assert(less[k] == entries[k]);
                assert(q.contains(k));
                let at = choose|at: int| 0 <= at < q.len() && q[at] == k;
                assert(p[at] == k);
            } else {
                assert(p[p.len() - 1] == k);
            }
        }
    }
}

/// Whether an entry is shown in the tree.
pub fn is_hidden(name: &str) -> (b: bool)
    ensures
        b == hidden(name@),
{
    same(name, ".git") || same(name, ".gitkeep")
}

fn path_below(dir: &str, name: &str) -> (r: String)
    ensures
        r@ == child_path(dir@, name@),
{
    let tail = replace(name, '\\', '/');
    if dir.is_empty() {
        return tail;
    }
    let mut r = dir.to_owned();
    r.push('/');
    r.append(tail.as_str());
    r
}

fn key_of(e: &RawEntry) -> (k: Vec<String>)
    ensures
        texts(k@) == listing_key(*e),
{
    let rank = match e.kind {
        RawKind::Dir(_) => "0".to_owned(),
        _ => "1".to_owned(),
    };
    let k: Vec<String> = vec![rank, e.name.clone()];
    assert(texts(k@) =~= listing_key(*e));
    k
}

fn tree_node(e: &RawEntry, path: String) -> (node: TreeNode)
    ensures
        shows(node, *e, path@),
    decreases *e,
{
    let children = match &e.kind {
        RawKind::Dir(inner) => Some(tree_nodes(inner, path.as_str())),
        _ => None,
    };
    TreeNode { name: e.name.clone(), path, children }
}

fn tree_nodes(entries: &Vec<RawEntry>, dir: &str) -> (nodes: Vec<TreeNode>)
    ensures
        shows_all(nodes@, entries@, dir@),
    decreases entries@,
{
    let ghost es = entries@;
    let ghost ps = shown_places(es);
    let mut places: Vec<usize> = Vec::new();
    let mut keys: Vec<Vec<String>> = Vec::new();
    let mut i: usize = 0;
    assert(es.take(0).len() == 0);
    while i < entries.len()
        invariant
            es == entries@,
            i <= es.len(),
            keys@.len() == places@.len(),
            places@.len() == shown_places(es.take(i as int)).len(),
            forall|j: int|
                0 <= j < places@.len() ==> #[trigger] places@[j] == shown_places(
                    es.take(i as int),
                )[j] && places@[j] < i,
            forall|j: int|
                0 <= j < places@.len() ==> texts((#[trigger] keys@[j])@) == listing_key(
                    es[places@[j] as int],
                ),
        decreases es.len() - i,
    {
        assert(es.take(i + 1).drop_last() =~= es.take(i as int));
        assert(es.take(i + 1).last() == es[i as int]);
        let e = &entries[i];
        let other = match e.kind {
            RawKind::Other => true,
            _ => false,
        };
        if !is_hidden(e.name.as_str()) && !other {
            places.push(i);
            keys.push(key_of(e));
        }
        i += 1;
    }
    assert(es.take(es.len() as int) =~= es);
    assert(paths(keys@) =~= shown_keys(es));
    let order = sorted_places(&keys);
    let mut nodes: Vec<TreeNode> = Vec::new();
    let mut n: usize = 0;
    while n < order.len()
        invariant
            es == entries@,
            ps == shown_places(es),
            is_order(shown_keys(es), order@),
            places@.len() == ps.len(),
            shown_keys(es).len() == ps.len(),
            forall|j: int| 0 <= j < places@.len() ==> #[trigger] places@[j] == ps[j] && places@[j] < es.len(),
            n <= order@.len(),
            nodes@.len() == n,
            forall|j: int|
                0 <= j < n ==> shows(
                    #[trigger] nodes@[j],
                    es[ps[order@[j] as int]],
                    child_path(dir@, es[ps[order@[j] as int]].name@),
                ),
        decreases order@.len() - n,
    {
        assert(order@[n as int] < ps.len());
        let at: usize = places[order[n]];
        assert(at == ps[order@[n as int] as int]);
        let e = &entries[at];
        let path = path_below(dir, e.name.as_str());
        assert(decreases_to!(entries@ => entries@[at as int]));
        nodes.push(tree_node(e, path));
        n += 1;
    }
    nodes
}

/// The tree of a wiki from what its directory holds.
pub fn build_tree(entries: &Vec<RawEntry>) -> (root: TreeNode)
    ensures
        root.name@ == ""@,
        root.path@ == ""@,
        root.children is Some,
        shows_all(root.children->0@, entries@, ""@),
{
    TreeNode {
        name: "".to_owned(),
        path: "".to_owned(),
        children: Some(tree_nodes(entries, "")),
    }
}

/// The number of files that an entry comes to, as far as it can be counted.
pub fn count_files(e: &RawEntry) -> (n: u64)
    ensures
        n == (if file_count(*e) <= u64::MAX {
            file_count(*e) as int
        } else {
            u64::MAX as int
        }),
    decreases *e,
{
    match &e.kind {
        RawKind::Dir(inner) => count_all(inner),
        RawKind::File => 1,
        RawKind::Other => 0,
    }
}

fn count_all(entries: &Vec<RawEntry>) -> (n: u64)
    ensures
        n == (if file_counts(entries@) <= u64::MAX {
            file_counts(entries@) as int
        } else {
            u64::MAX as int
        }),
    decreases entries@,
{
    let mut n: u64 = 0;
    let mut i: usize = 0;
    assert(entries@.take(0).len() == 0);
    while i < entries.len()
        invariant
            i <= entries@.len(),
            n == (if file_counts(entries@.take(i as int)) <= u64::MAX {
                file_counts(entries@.take(i as int)) as int
            } else {
                u64::MAX as int
            }),
        decreases entries@.len() - i,
    {
        assert(entries@.take(i + 1).drop_last() =~= entries@.take(i as int));
        assert(entries@.take(i + 1).last() == entries@[i as int]);
        assert(decreases_to!(entries@ => entries@[i as int]));
        n = n.saturating_add(count_files(&entries[i]));
        i += 1;
    }
    assert(entries@.take(entries@.len() as int) =~= entries@);
    n
}

/// The Markdown files in a directory at any depth, by the names that lead to them.
pub fn markdown_files(entries: &Vec<RawEntry>, dir: &Vec<String>) -> (files: Vec<Vec<String>>)
    ensures
        paths(files@) == markdown_in(entries@, texts(dir@)),
    decreases entries@,
{
    let mut files: Vec<Vec<String>> = Vec::new();
    let mut i: usize = 0;
    assert(entries@.take(0).len() == 0);
    assert(paths(files@) =~= seq![]);
    while i < entries.len()
        invariant
            i <= entries@.len(),
            paths(files@) == markdown_in(entries@.take(i as int), texts(dir@)),
        decreases entries@.len() - i,
    {
        let ghost done = files@;
        assert(entries@.take(i + 1).drop_last() =~= entries@.take(i as int));
        assert(entries@.take(i + 1).last() == entries@[i as int]);
        assert(decreases_to!(entries@ => entries@[i as int]));
        let e = &entries[i];
        match &e.kind {
            RawKind::Dir(inner) => {
                let mut below = copy_texts(dir);
                below.push(e.name.clone());
                assert(texts(below@) =~= texts(dir@).push(e.name@));
                let mut found = markdown_files(inner, &below);
                let ghost f = found@;
                files.append(&mut found);
                assert(paths(files@) =~= paths(done) + paths(f));
                assert(markdown_at(*e, texts(dir@)) == markdown_in(inner@, texts(below@)));
            },
            RawKind::File => {
                if has_markdown_name(e.name.as_str()) {
                    let mut p = copy_texts(dir);
                    p.push(e.name.clone());
                    assert(texts(p@) =~= texts(dir@).push(e.name@));
                    files.push(p);
                    assert(paths(files@) =~= paths(done) + seq![texts(p@)]);
                } else {
                    assert(paths(files@) =~= paths(done) + Seq::<Seq<Seq<char>>>::empty());
                }
            },
            RawKind::Other => {
                assert(paths(files@) =~= paths(done) + Seq::<Seq<Seq<char>>>::empty());
            },
        }
        assert(paths(files@) == paths(done) + markdown_at(*e, texts(dir@)));
        assert(markdown_in(entries@.take(i + 1), texts(dir@)) == markdown_in(
            entries@.take(i as int),
            texts(dir@),
        ) + markdown_at(*e, texts(dir@)));
        i += 1;
    }
    assert(entries@.take(entries@.len() as int) =~= entries@);
    files
}

/// Nothing hidden is shown, everything else is, directories stand before files, and names ascend
/// within each.
pub proof fn law_tree_listing(nodes: Seq<TreeNode>, entries: Seq<RawEntry>, dir: Seq<char>)
    requires
        shows_all(nodes, entries, dir),
    ensures
        nodes.len() == shown_places(entries).len(),
        forall|i: int| 0 <= i < nodes.len() ==> !hidden((#[trigger] nodes[i]).name@),
        forall|k: int|
            0 <= k < entries.len() && visible(#[trigger] entries[k]) ==> exists|i: int|
                0 <= i < nodes.len() && (#[trigger] nodes[i]).name@ == entries[k].name@,
        forall|i: int, j: int|
            0 <= i < j < nodes.len() ==> ((#[trigger] nodes[i]).children is Some || (
            #[trigger] nodes[j]).children is None),
        forall|i: int, j: int|
            0 <= i < j < nodes.len() && ((#[trigger] nodes[i]).children is Some) == ((
            #[trigger] nodes[j]).children is Some) ==> text_lt(nodes[i].name@, nodes[j].name@)
                || nodes[i].name@ == nodes[j].name@,
{
    lemma_shown_places(entries);
    let ps = shown_places(entries);
    let ks = shown_keys(entries);
    let order = choose|order: Seq<usize>| #[trigger]
        is_order(ks, order) && nodes.len() == order.len() && (forall|i: int|
            0 <= i < nodes.len() && 0 <= #[trigger] ps[order[i] as int] < entries.len() ==> shows(
                nodes[i],
                entries[ps[order[i] as int]],
                child_path(dir, entries[ps[order[i] as int]].name@),
            ));
    assert forall|i: int| 0 <= i < nodes.len() implies (#[trigger] nodes[i]).name@
        == entries[ps[order[i] as int]].name@ && visible(entries[ps[order[i] as int]]) && ((
    nodes[i].children is Some) == (entries[ps[order[i] as int]].kind is Dir)) by {
        assert(order[i] < ks.len());
        assert(0 <= ps[order[i] as int] < entries.len());
    }
    assert forall|k: int| 0 <= k < entries.len() && visible(#[trigger] entries[k]) implies exists|
        i: int,
    | 0 <= i < nodes.len() && (#[trigger] nodes[i]).name@ == entries[k].name@ by {
        assert(ps.contains(k));
        let q = choose|q: int| 0 <= q < ps.len() && ps[q] == k;
        assert(ps.len() == order.len());
        assert(crate::order::listed(order, q));
        let i = choose|i: int| 0 <= i < order.len() && #[trigger] order[i] == q;
        assert(nodes[i].name@ == entries[k].name@);
    }
    assert forall|i: int, j: int| 0 <= i < j < nodes.len() implies ((#[trigger] nodes[i]).children
        is Some || (#[trigger] nodes[j]).children is None) && (((nodes[i].children is Some) == (
    nodes[j].children is Some)) ==> text_lt(nodes[i].name@, nodes[j].name@) || nodes[i].name@
        == nodes[j].name@) by {
        let a = entries[ps[order[i] as int]];
        let b = entries[ps[order[j] as int]];
        assert(order[i] < ks.len());
        assert(order[j] < ks.len());
        assert(precedes(ks, order[i] as int, order[j] as int));
        let x = listing_key(a);
        let y = listing_key(b);
        assert(ks[order[i] as int] == x);
        assert(ks[order[j] as int] == y);
        reveal_strlit("0");
        reveal_strlit("1");
        assert("0"@[0] != "1"@[0]);
        reveal_with_fuel(path_lt, 3);
        reveal_with_fuel(text_lt, 2);
        assert(x.skip(1)[0] == a.name@);
        assert(y.skip(1)[0] == b.name@);
        if x == y {
            assert(x[0] == y[0]);
            assert(x[1] == y[1]);
        }
    }
}

/// Every entry but version control and what is neither file nor directory is shown: under its name, at
/// its path below the directory, as a file or as a directory, and then with what it holds.
pub proof fn law_tree_shows_entries_where_they_are(
    nodes: Seq<TreeNode>,
    entries: Seq<RawEntry>,
    dir: Seq<char>,
    k: int,
)
    requires
        shows_all(nodes, entries, dir),
        0 <= k < entries.len(),
        entries[k].name@ != ".git"@,
        entries[k].name@ != ".gitkeep"@,
        !(entries[k].kind is Other),
    ensures
        exists|i: int|
            0 <= i < nodes.len() && ({
                let node = #[trigger] nodes[i];
                let name = replaced(entries[k].name@, '\\', '/');
                let path = if dir.len() == 0 {
                    name
                } else {
                    dir + seq!['/'] + name
                };
                &&& node.name@ == entries[k].name@
                &&& node.path@ == path
                &&& match entries[k].kind {
                    RawKind::Dir(inner) => node.children matches Some(children) && shows_all(
                        children@,
                        inner@,
                        path,
                    ),
                    _ => node.children is None,
                }
            }),
{
    lemma_shown_places(entries);
    let ps = shown_places(entries);
    let ks = shown_keys(entries);
    let order = choose|order: Seq<usize>| #[trigger]
        is_order(ks, order) && nodes.len() == order.len() && (forall|i: int|
            0 <= i < nodes.len() && 0 <= #[trigger] ps[order[i] as int] < entries.len() ==> shows(
                nodes[i],
                entries[ps[order[i] as int]],
                child_path(dir, entries[ps[order[i] as int]].name@),
            ));
    assert(visible(entries[k]));
    assert(ps.contains(k));
    let q = choose|q: int| 0 <= q < ps.len() && ps[q] == k;
    assert(crate::order::listed(order, q));
    let i = choose|i: int| 0 <= i < order.len() && #[trigger] order[i] == q;
    assert(ps[order[i] as int] == k);
    assert(shows(nodes[i], entries[k], child_path(dir, entries[k].name@)));
    let name = replaced(entries[k].name@, '\\', '/');
    assert(dir.push('/') + name =~= dir + seq!['/'] + name);
}

proof fn lemma_counts_add(a: Seq<RawEntry>, b: Seq<RawEntry>)
    ensures
        file_counts(a + b) == file_counts(a) + file_counts(b),
    decreases b.len(),
{
    if b.len() == 0 {
        assert(a + b =~= a);
    } else {
        assert((a + b).drop_last() =~= a + b.drop_last());
        assert((a + b).last() == b.last());
        lemma_counts_add(a, b.drop_last());
    }
}

/// Files are counted one by one, at any depth: a file is one, a directory as many as it holds, and
/// anything else none.
pub proof fn law_files_are_counted(e: RawEntry, a: Seq<RawEntry>, b: Seq<RawEntry>)
    ensures
        match e.kind {
            RawKind::File => file_count(e) == 1,
            RawKind::Dir(inner) => file_count(e) == file_counts(inner@),
            RawKind::Other => file_count(e) == 0,
        },
        file_counts(seq![]) == 0,
        file_counts(seq![e]) == file_count(e),
        file_counts(a + b) == file_counts(a) + file_counts(b),
{
    lemma_counts_add(a, b);
    assert(seq![e].drop_last() =~= seq![]);
    assert(seq![e].last() == e);
    assert(file_counts(seq![e].drop_last()) == 0);
}

proof fn lemma_markdown_adds(a: Seq<RawEntry>, b: Seq<RawEntry>, dir: Seq<Seq<char>>)
    ensures
        markdown_in(a + b, dir) == markdown_in(a, dir) + markdown_in(b, dir),
    decreases b.len(),
{
    if b.len() == 0 {
        assert(a + b =~= a);
        assert(markdown_in(a, dir) + markdown_in(b, dir) =~= markdown_in(a, dir));
    } else {
        assert((a + b).drop_last() =~= a + b.drop_last());
        assert((a + b).last() == b.last());
        lemma_markdown_adds(a, b.drop_last(), dir);
        assert(markdown_in(a + b, dir) =~= markdown_in(a, dir) + markdown_in(b, dir));
    }
}

/// The Markdown files of a directory are found one by one, at any depth, under the names that lead to
/// them: every file with something before `.md`, and nothing else.
pub proof fn law_markdown_files_are_found(
    e: RawEntry,
    a: Seq<RawEntry>,
    b: Seq<RawEntry>,
    dir: Seq<Seq<char>>,
)
    ensures
        markdown_in(seq![], dir) == Seq::<Seq<Seq<char>>>::empty(),
        markdown_in(a + b, dir) == markdown_in(a, dir) + markdown_in(b, dir),
        markdown_in(seq![e], dir) == (match e.kind {
            RawKind::File => if is_markdown_name(e.name@) {
                seq![dir.push(e.name@)]
            } else {
                seq![]
            },
            RawKind::Dir(inner) => markdown_in(inner@, dir.push(e.name@)),
            RawKind::Other => seq![],
        }),
{
    lemma_markdown_adds(a, b, dir);
    let none: Seq<Seq<Seq<char>>> = seq![];
    assert(seq![e].drop_last() =~= seq![]);
    assert(seq![e].last() == e);
    assert(markdown_in(seq![e].drop_last(), dir) =~= none);
    assert(none + markdown_at(e, dir) =~= markdown_at(e, dir));
}

} // verus!
