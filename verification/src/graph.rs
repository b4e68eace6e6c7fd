//! The link graph of a wiki: its pages, and the links between them.

use crate::markdown::{parse_frontmatter_type, wikilink_targets};
#[allow(unused_imports)]
use crate::markdown::{frontmatter_type, links};
use crate::order::{is_order, paths, sorted_places};
use crate::paths::stem_of;
#[allow(unused_imports)]
use crate::paths::stem;
use crate::text::{copy_texts, join, replace, same, texts};
#[allow(unused_imports)]
use crate::text::{joined, replaced};
use crate::tree::{markdown_files, RawEntry};
#[allow(unused_imports)]
use crate::tree::markdown_in;
use vstd::prelude::*;

verus! {

/// A page of the wiki: the names that lead to it, and its text.
pub struct PageFile {
    pub path: Vec<String>,
    pub content: String,
}

/// The mathematical content of a page.
pub struct Page {
    pub path: Seq<Seq<char>>,
    pub content: Seq<char>,
}

impl View for PageFile {
    type V = Page;

    open spec fn view(&self) -> Page {
        Page { path: texts(self.path@), content: self.content@ }
    }
}

pub struct Node {
    pub id: String,
    pub label: String,
    pub kind: String,
}

pub struct Edge {
    pub from: String,
    pub to: String,
}

pub struct Graph {
    pub nodes: Vec<Node>,
    pub edges: Vec<Edge>,
}

/// A node of the graph: id, label, type.
pub struct NodeModel {
    pub id: Seq<char>,
    pub label: Seq<char>,
    pub kind: Seq<char>,
}

/// A link of the graph: the ids of the page that links and of the page that is linked to.
pub struct EdgeModel {
    pub from: Seq<char>,
    pub to: Seq<char>,
}

impl View for Node {
    type V = NodeModel;

    open spec fn view(&self) -> NodeModel {
        NodeModel { id: self.id@, label: self.label@, kind: self.kind@ }
    }
}

impl View for Edge {
    type V = EdgeModel;

    open spec fn view(&self) -> EdgeModel {
        EdgeModel { from: self.from@, to: self.to@ }
    }
}

pub open spec fn node_models(v: Seq<Node>) -> Seq<NodeModel> {
    v.map_values(|n: Node| n@)
}

pub open spec fn edge_models(v: Seq<Edge>) -> Seq<EdgeModel> {
    v.map_values(|e: Edge| e@)
}

pub open spec fn page_models(v: Seq<PageFile>) -> Seq<Page> {
    v.map_values(|p: PageFile| p@)
}

pub open spec fn page_paths(v: Seq<Page>) -> Seq<Seq<Seq<char>>> {
    v.map_values(|p: Page| p.path)
}

/// A page is known by its path.
pub open spec fn page_id(p: Page) -> Seq<char> {
    replaced(joined(p.path, '/'), '\\', '/')
}

/// A page is shown, and linked to, by its file name without the extension.
pub open spec fn page_label(p: Page) -> Seq<char> {
    if p.path.len() == 0 {
        ""@
    } else {
        stem(p.path.last())
    }
}

/// An index page is one by its name; other pages say their type, or are plain pages.
pub open spec fn page_kind(p: Page) -> Seq<char> {
    if p.path.len() > 0 && p.path.last() == "index.md"@ {
        "index"@
    } else if frontmatter_type(p.content) is Some {
        frontmatter_type(p.content)->0
    } else {
        "page"@
    }
}

pub open spec fn node_of(p: Page) -> NodeModel {
    NodeModel { id: page_id(p), label: page_label(p), kind: page_kind(p) }
}

/// The first page with the given label.
pub open spec fn page_with_label(pages: Seq<Page>, label: Seq<char>) -> Option<Page>
    decreases pages.len(),
{
    if pages.len() == 0 {
        None
    } else if page_label(pages[0]) == label {
        Some(pages[0])
    } else {
        page_with_label(pages.skip(1), label)
    }
}

/// The edges for the given link targets of one page: a link to no page, or to the page itself,
/// gives none.
pub open spec fn edges_to(pages: Seq<Page>, from: Seq<char>, targets: Seq<Seq<char>>) -> Seq<
    EdgeModel,
>
    decreases targets.len(),
{
    if targets.len() == 0 {
        seq![]
    } else {
        let rest = edges_to(pages, from, targets.drop_last());
        match page_with_label(pages, targets.last()) {
            Some(p) => if page_id(p) != from {
                rest.push(EdgeModel { from, to: page_id(p) })
            } else {
                rest
            },
            None => rest,
        }
    }
}

/// The edges of the first `n` pages.
pub open spec fn edges_of(pages: Seq<Page>, n: nat) -> Seq<EdgeModel>
    decreases n,
{
    if n == 0 {
        seq![]
    } else {
        edges_of(pages, (n - 1) as nat) + edges_to(
            pages,
            page_id(pages[n - 1]),
            links(pages[n - 1].content),
        )
    }
}

/// The pages in the given order.
pub open spec fn arranged(pages: Seq<Page>, order: Seq<usize>) -> Seq<Page> {
    Seq::new(order.len(), |i: int| pages[order[i] as int])
}

/// `g` is the graph of pages that stand in this order.
pub open spec fn is_graph_of(g: Graph, pages: Seq<Page>) -> bool {
    &&& node_models(g.nodes@) == pages.map_values(|p: Page| node_of(p))
    &&& edge_models(g.edges@) == edges_of(pages, pages.len())
}

/// The files that the graph is drawn from: the index, and the Markdown files below `wiki`.
pub open spec fn graph_paths(has_index: bool, wiki: Seq<RawEntry>) -> Seq<Seq<Seq<char>>> {
    (if has_index {
        seq![seq!["index.md"@]]
    } else {
        seq![]
    }) + markdown_in(wiki, seq!["wiki"@])
}

/// The files that the graph is drawn from, given whether there is an index and what `wiki` holds.
pub fn graph_files(has_index: bool, wiki: &Vec<RawEntry>) -> (files: Vec<Vec<String>>)
    ensures
        paths(files@) == graph_paths(has_index, wiki@),
{
    let mut files: Vec<Vec<String>> = Vec::new();
    if has_index {
        let p: Vec<String> = vec!["index.md".to_owned()];
        assert(texts(p@) =~= seq!["index.md"@]);
        files.push(p);
    }
    let dir: Vec<String> = vec!["wiki".to_owned()];
    assert(texts(dir@) =~= seq!["wiki"@]);
    let ghost first = files@;
    let mut found = markdown_files(wiki, &dir);
    let ghost f = found@;
    files.append(&mut found);
    assert(paths(files@) =~= paths(first) + paths(f));
    assert(paths(first) =~= (if has_index {
        seq![seq!["index.md"@]]
    } else {
        seq![]
    }));
    files
}

fn label_of(p: &PageFile) -> (r: String)
    ensures
        r@ == page_label(p@),
{
    let n: usize = p.path.len();
    if n == 0 {
        "".to_owned()
    } else {
        assert(texts(p.path@).last() == p.path@[n - 1]@);
        stem_of(p.path[n - 1].as_str())
    }
}

fn kind_of(p: &PageFile) -> (r: String)
    ensures
        r@ == page_kind(p@),
{
    let n: usize = p.path.len();
    if n > 0 {
        assert(texts(p.path@).last() == p.path@[n - 1]@);
        if same(p.path[n - 1].as_str(), "index.md") {
            return "index".to_owned();
        }
    }
    match parse_frontmatter_type(p.content.as_str()) {
        Some(t) => t,
        None => "page".to_owned(),
    }
}

fn id_of(p: &PageFile) -> (r: String)
    ensures
        r@ == page_id(p@),
{
    let whole = join(&p.path, '/');
    replace(whole.as_str(), '\\', '/')
}

/// The first node with the given label.
fn find_label(nodes: &Vec<Node>, label: &str, Ghost(pages): Ghost<Seq<Page>>) -> (r: Option<usize>)
    requires
        node_models(nodes@) == pages.map_values(|p: Page| node_of(p)),
    ensures
        r is Some <==> page_with_label(pages, label@) is Some,
        r matches Some(i) ==> i < nodes@.len() && nodes@[i as int].id@ == page_id(
            page_with_label(pages, label@)->0,
        ),
{
    let mut i: usize = 0;
    assert(pages.skip(0) =~= pages);
    assert(node_models(nodes@).len() == pages.len());
    while i < nodes.len()
        invariant
            i <= nodes@.len() == pages.len(),
            node_models(nodes@) == pages.map_values(|p: Page| node_of(p)),
            page_with_label(pages, label@) == page_with_label(pages.skip(i as int), label@),
        decreases nodes@.len() - i,
    {
        assert(node_models(nodes@)[i as int] == node_of(pages[i as int]));
        assert(pages.skip(i as int)[0] == pages[i as int]);
        assert(pages.skip(i as int).skip(1) =~= pages.skip(i + 1));
        if same(nodes[i].label.as_str(), label) {
            return Some(i);
        }
        i += 1;
    }
    None
}

/// The graph of a wiki's pages, which are taken in the order of their paths.
pub fn build_graph(pages: &Vec<PageFile>) -> (g: Graph)
    ensures
        exists|order: Seq<usize>| #[trigger]
            is_order(page_paths(page_models(pages@)), order) && is_graph_of(
                g,
                arranged(page_models(pages@), order),
            ),
{
    let ghost models = page_models(pages@);
    let mut keys: Vec<Vec<String>> = Vec::new();
    let mut i: usize = 0;
    while i < pages.len()
        invariant
            models == page_models(pages@),
            i <= pages@.len(),
            keys@.len() == i,
            forall|j: int| 0 <= j < i ==> texts((#[trigger] keys@[j])@) == models[j].path,
        decreases pages@.len() - i,
    {
        keys.push(copy_texts(&pages[i].path));
        i += 1;
    }
    assert(paths(keys@) =~= page_paths(models));
    let order = sorted_places(&keys);
    let ghost sorted = arranged(models, order@);
    let mut nodes: Vec<Node> = Vec::new();
    let mut n: usize = 0;
    while n < order.len()
        invariant
            models == page_models(pages@),
            sorted == arranged(models, order@),
            is_order(page_paths(models), order@),
            page_paths(models).len() == pages@.len(),
            n <= order@.len(),
            nodes@.len() == n,
            forall|j: int| 0 <= j < n ==> (#[trigger] nodes@[j])@ == node_of(sorted[j]),
        decreases order@.len() - n,
    {
        assert(order@[n as int] < pages@.len());
        let p = &pages[order[n]];
        assert(p@ == sorted[n as int]);
        nodes.push(Node { id: id_of(p), label: label_of(p), kind: kind_of(p) });
        n += 1;
    }
    assert(node_models(nodes@) =~= sorted.map_values(|p: Page| node_of(p)));
    let mut edges: Vec<Edge> = Vec::new();
    let mut m: usize = 0;
    assert(edge_models(edges@) =~= seq![]);
    while m < order.len()
        invariant
            models == page_models(pages@),
            sorted == arranged(models, order@),
            is_order(page_paths(models), order@),
            page_paths(models).len() == pages@.len(),
            node_models(nodes@) == sorted.map_values(|p: Page| node_of(p)),
            nodes@.len() == order@.len(),
            m <= order@.len(),
            edge_models(edges@) == edges_of(sorted, m as nat),
        decreases order@.len() - m,
    {
        assert(order@[m as int] < pages@.len());
        let p = &pages[order[m]];
        assert(p@ == sorted[m as int]);
        assert(node_models(nodes@)[m as int] == node_of(sorted[m as int]));
        let targets = wikilink_targets(p.content.as_str());
        let ghost ts = links(p.content@);
        let ghost from = page_id(sorted[m as int]);
        let ghost done = edges_of(sorted, m as nat);
        let mut k: usize = 0;
        assert(ts.take(0) =~= seq![]);
        assert(done + edges_to(sorted, from, ts.take(0)) =~= done);
        while k < targets.len()
            invariant
                texts(targets@) == ts,
                k <= targets@.len(),
                m < nodes@.len(),
                nodes@[m as int].id@ == from,
                node_models(nodes@) == sorted.map_values(|p: Page| node_of(p)),
                edge_models(edges@) == done + edges_to(sorted, from, ts.take(k as int)),
            decreases targets@.len() - k,
        {
            let ghost so_far = edges@;
            assert(ts.take(k + 1).drop_last() =~= ts.take(k as int));
            assert(ts.take(k + 1).last() == targets@[k as int]@);
            match find_label(&nodes, targets[k].as_str(), Ghost(sorted)) {
                Some(at) => {
                    if !same(nodes[at].id.as_str(), nodes[m].id.as_str()) {
                        let e = Edge { from: nodes[m].id.clone(), to: nodes[at].id.clone() };
                        edges.push(e);
                        assert(edge_models(edges@) =~= edge_models(so_far).push(e@));
                        assert(edge_models(edges@) =~= done + edges_to(
                            sorted,
                            from,
                            ts.take(k + 1),
                        ));
                    }
                },
                None => {},
            }
            k += 1;
        }
        assert(ts.take(ts.len() as int) =~= ts);
        m += 1;
    }
    let g = Graph { nodes, edges };
    proof {
        assert(sorted.len() == order@.len());
        assert(is_graph_of(g, sorted));
    }
    g
}

proof fn lemma_labelled_is_a_page(pages: Seq<Page>, label: Seq<char>)
    ensures
        page_with_label(pages, label) matches Some(p) ==> pages.contains(p) && page_label(p)
            == label,
    decreases pages.len(),
{
    if pages.len() > 0 {
        if page_label(pages[0]) == label {
            assert(pages.contains(pages[0]));
        } else {
            lemma_labelled_is_a_page(pages.skip(1), label);
            if page_with_label(pages.skip(1), label) is Some {
                let p = page_with_label(pages.skip(1), label)->0;
                let i = choose|i: int| 0 <= i < pages.skip(1).len() && pages.skip(1)[i] == p;
                assert(pages[i + 1] == p);
            }
        }
    }
}

proof fn lemma_edges_to(pages: Seq<Page>, from: Seq<char>, targets: Seq<Seq<char>>, k: int)
    requires
        0 <= k < edges_to(pages, from, targets).len(),
    ensures
        edges_to(pages, from, targets)[k].from == from,
        edges_to(pages, from, targets)[k].to != from,
        exists|q: int|
            0 <= q < pages.len() && page_id(#[trigger] pages[q]) == edges_to(
                pages,
                from,
                targets,
            )[k].to && targets.contains(page_label(pages[q])),
    decreases targets.len(),
{
    let less = targets.drop_last();
    let rest = edges_to(pages, from, less);
    if k < rest.len() {
        lemma_edges_to(pages, from, less, k);
        let q = choose|q: int|
            0 <= q < pages.len() && page_id(#[trigger] pages[q]) == rest[k].to && less.contains(
                page_label(pages[q]),
            );
        let at = choose|at: int| 0 <= at < less.len() && less[at] == page_label(pages[q]);
        assert(targets[at] == page_label(pages[q]));
        assert(edges_to(pages, from, targets)[k] == rest[k]);
    } else {
        lemma_labelled_is_a_page(pages, targets.last());
        let p = page_with_label(pages, targets.last())->0;
        let q = choose|q: int| 0 <= q < pages.len() && pages[q] == p;
        assert(targets[targets.len() - 1] == page_label(pages[q]));
        assert(page_id(pages[q]) == edges_to(pages, from, targets)[k].to);
    }
}

/// Every edge leads from one page of the graph to another one that the first one links to by
/// name: links that lead nowhere, or back to their own page, give no edge.
pub proof fn law_edges_join_pages(pages: Seq<Page>, n: nat, k: int)
    requires
        n <= pages.len(),
        0 <= k < edges_of(pages, n).len(),
    ensures
        edges_of(pages, n)[k].from != edges_of(pages, n)[k].to,
        exists|i: int, j: int|
            0 <= i < n && 0 <= j < pages.len() && page_id(#[trigger] pages[i]) == edges_of(
                pages,
                n,
            )[k].from && page_id(#[trigger] pages[j]) == edges_of(pages, n)[k].to && links(
                pages[i].content,
            ).contains(page_label(pages[j])),
    decreases n,
{
    let less = edges_of(pages, (n - 1) as nat);
    let own = edges_to(pages, page_id(pages[n - 1]), links(pages[n - 1].content));
    if k < less.len() {
        law_edges_join_pages(pages, (n - 1) as nat, k);
        assert(edges_of(pages, n)[k] == less[k]);
    } else {
        lemma_edges_to(
            pages,
            page_id(pages[n - 1]),
            links(pages[n - 1].content),
            k - less.len(),
        );
        assert(edges_of(pages, n)[k] == own[k - less.len()]);
        let j = choose|q: int|
            0 <= q < pages.len() && page_id(#[trigger] pages[q]) == own[k - less.len()].to && links(
                pages[n - 1].content,
            ).contains(page_label(pages[q]));
        assert(page_id(pages[n - 1]) == edges_of(pages, n)[k].from);
        assert(page_id(pages[j]) == edges_of(pages, n)[k].to);
    }
}

proof fn lemma_first_labelled(pages: Seq<Page>, label: Seq<char>, j: int)
    requires
        0 <= j <= pages.len(),
        forall|q: int| 0 <= q < j ==> page_label(#[trigger] pages[q]) != label,
        j < pages.len() ==> page_label(pages[j]) == label,
    ensures
        page_with_label(pages, label) == (if j < pages.len() {
            Some(pages[j])
        } else {
            None
        }),
    decreases j,
{
    if pages.len() > 0 && j > 0 {
        let rest = pages.skip(1);
        assert(page_label(pages[0]) != label);
        assert forall|q: int| 0 <= q < j - 1 implies page_label(#[trigger] rest[q]) != label by {
            assert(rest[q] == pages[q + 1]);
        }
        lemma_first_labelled(rest, label, j - 1);
    }
}

/// The links of a page give its edges, one by one and in their order: a link gives an edge to the first
/// page that has the name it names as its label, unless there is none or that is the page itself.
pub proof fn law_links_give_edges(
    pages: Seq<Page>,
    from: Seq<char>,
    targets: Seq<Seq<char>>,
    more: Seq<Seq<char>>,
    target: Seq<char>,
    j: int,
)
    requires
        0 <= j <= pages.len(),
        forall|q: int| 0 <= q < j ==> page_label(#[trigger] pages[q]) != target,
        j < pages.len() ==> page_label(pages[j]) == target,
    ensures
        edges_to(pages, from, seq![]) == Seq::<EdgeModel>::empty(),
        edges_to(pages, from, targets + more) == edges_to(pages, from, targets) + edges_to(
            pages,
            from,
            more,
        ),
        edges_to(pages, from, seq![target]) == (if j < pages.len() && page_id(pages[j]) != from {
            seq![EdgeModel { from, to: page_id(pages[j]) }]
        } else {
            seq![]
        }),
    decreases more.len(),
{
    lemma_first_labelled(pages, target, j);
    let one = seq![target];
    assert(one.drop_last() =~= seq![]);
    reveal_with_fuel(edges_to, 2);
    assert(edges_to(pages, from, one.drop_last()) =~= seq![]);
    if j < pages.len() && page_id(pages[j]) != from {
        assert(edges_to(pages, from, one) =~= seq![EdgeModel { from, to: page_id(pages[j]) }]);
    }
    if more.len() == 0 {
        assert(targets + more =~= targets);
        assert(edges_to(pages, from, targets) + edges_to(pages, from, more) =~= edges_to(
            pages,
            from,
            targets,
        ));
    } else {
        law_links_give_edges(pages, from, targets, more.drop_last(), target, j);
        assert((targets + more).drop_last() =~= targets + more.drop_last());
        assert((targets + more).last() == more.last());
        assert(edges_to(pages, from, targets + more) =~= edges_to(pages, from, targets) + edges_to(
            pages,
            from,
            more,
        ));
    }
}

/// Where the edges of a page begin among the edges of all pages.
pub open spec fn edges_before(pages: Seq<Page>, i: int) -> nat
    decreases i,
{
    if i <= 0 {
        0
    } else {
        edges_before(pages, i - 1) + edges_to(
            pages,
            page_id(pages[i - 1]),
            links(pages[i - 1].content),
        ).len()
    }
}

/// The edges of a graph are those that the links of each page give, all of them, page after page.
pub proof fn law_edges_come_page_by_page(pages: Seq<Page>, n: nat, i: int, k: int)
    requires
        0 <= i < n <= pages.len(),
    ensures
        edges_of(pages, n).len() == edges_before(pages, n as int),
        ({
            let own = edges_to(pages, page_id(pages[i]), links(pages[i].content));
            let at = edges_before(pages, i);
            &&& at + own.len() <= edges_of(pages, n).len()
            &&& 0 <= k < own.len() ==> edges_of(pages, n)[at + k] == own[k]
        }),
    decreases n,
{
    reveal_with_fuel(edges_of, 2);
    reveal_with_fuel(edges_before, 2);
    if i < n - 1 {
        law_edges_come_page_by_page(pages, (n - 1) as nat, i, k);
        let own = edges_to(pages, page_id(pages[i]), links(pages[i].content));
        if 0 <= k < own.len() {
            assert(edges_of(pages, n)[edges_before(pages, i) + k] == edges_of(
                pages,
                (n - 1) as nat,
            )[edges_before(pages, i) + k]);
        }
    } else if n > 1 {
        law_edges_come_page_by_page(pages, (n - 1) as nat, n - 2, 0);
    }
}

/// A graph has a node for each page, in the order of the pages: known by its path, with slashes, shown
/// by its file name without the extension, and of the type that the page says it has; an index is one
/// by its name, and a page that says nothing is a page. It has the edges of the pages and no others.
pub proof fn law_graphs_show_every_page(g: Graph, pages: Seq<Page>, i: int)
    requires
        is_graph_of(g, pages),
    ensures
        g.nodes@.len() == pages.len(),
        0 <= i < pages.len() ==> ({
            let node = g.nodes@[i];
            let p = pages[i];
            let last = p.path[p.path.len() - 1];
            &&& node.id@ == replaced(joined(p.path, '/'), '\\', '/')
            &&& p.path.len() > 0 ==> node.label@ == stem(last)
            &&& node.kind@ == (if p.path.len() > 0 && last == "index.md"@ {
                "index"@
            } else {
                match frontmatter_type(p.content) {
                    Some(kind) => kind,
                    None => "page"@,
                }
            })
        }),
        edge_models(g.edges@) == edges_of(pages, pages.len()),
        edge_models(g.edges@).len() == g.edges@.len(),
        0 <= i < g.edges@.len() ==> edge_models(g.edges@)[i].from == g.edges@[i].from@
            && edge_models(g.edges@)[i].to == g.edges@[i].to@,
{
    let nodes = node_models(g.nodes@);
    assert(nodes.len() == pages.len());
    if 0 <= i < pages.len() {
        assert(nodes[i] == node_of(pages[i]));
        assert(nodes[i] == g.nodes@[i]@);
    }
}

/// Pages are arranged as the order says, and an order arranges all of them.
pub proof fn law_pages_are_arranged(pages: Seq<Page>, order: Seq<usize>, i: int)
    ensures
        arranged(pages, order).len() == order.len(),
        0 <= i < order.len() ==> arranged(pages, order)[i] == pages[order[i] as int],
        page_paths(pages).len() == pages.len(),
        0 <= i < pages.len() ==> page_paths(pages)[i] == pages[i].path,
{
}

/// A graph is drawn from the index, if there is one, and from the Markdown files below `wiki`.
pub proof fn law_graphs_are_drawn_from_pages(has_index: bool, wiki: Seq<RawEntry>)
    ensures
        has_index ==> graph_paths(has_index, wiki) == seq![seq!["index.md"@]] + markdown_in(
            wiki,
            seq!["wiki"@],
        ),
        !has_index ==> graph_paths(has_index, wiki) == markdown_in(wiki, seq!["wiki"@]),
{
    if !has_index {
        assert(graph_paths(has_index, wiki) =~= markdown_in(wiki, seq!["wiki"@]));
    }
}

/// The model of the pages is the pages, one for one, each with its whole path and text.
pub proof fn law_pages_are_modelled_whole(v: Seq<PageFile>, i: int)
    ensures
        page_models(v).len() == v.len(),
        0 <= i < v.len() ==> page_models(v)[i].content == v[i].content@,
        0 <= i < v.len() ==> page_models(v)[i].path == v[i].path@.map_values(|s: String| s@),
{
}

} // verus!
