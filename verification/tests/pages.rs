use mindwiki::browse::{page_reply, resolve_page};
use mindwiki::graph::{build_graph, graph_files, PageFile};
use mindwiki::markdown::{parse_frontmatter_type, wikilink_targets};
use mindwiki::paths::{escapes_root, file_stem, is_import_junk, is_within, join_path};
use mindwiki::snapshot::{covered_files, diff_snapshots, snapshot, FileMark, Snapshot};
use mindwiki::tree::{build_tree, count_files, RawEntry, RawKind, TreeNode};

fn file(name: &str) -> RawEntry {
    RawEntry { name: name.to_string(), kind: RawKind::File }
}

fn dir(name: &str, entries: Vec<RawEntry>) -> RawEntry {
    RawEntry { name: name.to_string(), kind: RawKind::Dir(entries) }
}

fn page(path: &[&str], content: &str) -> PageFile {
    PageFile {
        path: path.iter().map(|s| s.to_string()).collect(),
        content: content.to_string(),
    }
}

fn all_names(node: &TreeNode, out: &mut Vec<String>) {
    out.push(node.path.clone());
    if let Some(children) = &node.children {
        for c in children {
            all_names(c, out);
        }
    }
}

#[test]
fn graph_parsing() {
    let wiki = vec![file("概念B.md"), file("概念A.md"), file("notes.txt")];
    let files = graph_files(true, &wiki);
    assert_eq!(files.len(), 3);
    assert!(files.contains(&vec!["index.md".to_string()]));
    let pages = vec![
        page(&["index.md"], "# 索引\n\n入口：[[概念A]]\n"),
        page(
            &["wiki", "概念A.md"],
            "---\ntype: concept\n---\n# 概念A\n\n关联 [[概念B]] 与 [[不存在的页面]]\n",
        ),
        page(&["wiki", "概念B.md"], "# 概念B\n\n回到 [[概念A#小节|概念A]]\n"),
    ];
    let g = build_graph(&pages);
    assert_eq!(g.nodes.len(), 3);
    let ty = |id: &str| g.nodes.iter().find(|n| n.id == id).unwrap().kind.clone();
    assert_eq!(ty("index.md"), "index");
    assert_eq!(ty("wiki/概念A.md"), "concept");
    assert_eq!(ty("wiki/概念B.md"), "page");

    let edges: Vec<(String, String)> =
        g.edges.iter().map(|e| (e.from.clone(), e.to.clone())).collect();
    assert!(edges.contains(&("index.md".into(), "wiki/概念A.md".into())));
    assert!(edges.contains(&("wiki/概念A.md".into(), "wiki/概念B.md".into())));
    assert!(edges.contains(&("wiki/概念B.md".into(), "wiki/概念A.md".into())));
    assert!(!edges.iter().any(|(_, to)| to.contains("不存在")));
    assert_eq!(edges.len(), 3);
}

#[test]
fn graph_is_drawn_in_path_order_and_takes_the_first_of_a_name() {
    let pages = vec![
        page(&["wiki", "z", "a.md"], "[[b]] [[b]] [[a]]"),
        page(&["wiki", "c", "a.md"], ""),
        page(&["wiki", "b.md"], "[[a]] [[b]]"),
    ];
    let g = build_graph(&pages);
    let ids: Vec<&str> = g.nodes.iter().map(|n| n.id.as_str()).collect();
    assert_eq!(ids, ["wiki/b.md", "wiki/c/a.md", "wiki/z/a.md"]);
    assert_eq!(g.nodes[1].label, "a");
    let edges: Vec<(&str, &str)> =
        g.edges.iter().map(|e| (e.from.as_str(), e.to.as_str())).collect();
    assert_eq!(
        edges,
        [
            ("wiki/b.md", "wiki/c/a.md"),
            ("wiki/z/a.md", "wiki/b.md"),
            ("wiki/z/a.md", "wiki/b.md"),
            ("wiki/z/a.md", "wiki/c/a.md"),
        ]
    );
}

#[test]
fn graph_files_are_the_index_and_the_markdown_below_wiki() {
    let wiki = vec![
        dir("sub", vec![file("x.md"), file(".md"), file("y.MD")]),
        file("a.md"),
        RawEntry { name: "l.md".to_string(), kind: RawKind::Other },
    ];
    let mut files: Vec<String> = graph_files(false, &wiki).iter().map(|p| p.join("/")).collect();
    files.sort();
    assert_eq!(files, ["wiki/a.md", "wiki/sub/x.md"]);
}

#[test]
fn tree_excludes_git() {
    let root = vec![
        file(".gitkeep"),
        file("index.md"),
        dir(".git", vec![file("config"), dir("refs", vec![dir("heads", vec![file("main")])])]),
        dir("wiki", vec![file("概念A.md")]),
    ];
    let tree = build_tree(&root);
    let mut names = Vec::new();
    all_names(&tree, &mut names);
    let s = names.join(" ");
    assert!(!s.contains(".git"));
    assert!(s.contains("index.md"));
    assert!(s.contains("概念A.md"));
    let children = tree.children.as_ref().unwrap();
    assert!(children[0].children.is_some());
    assert_eq!(children[0].name, "wiki");
}

#[test]
fn tree_lists_directories_first_and_names_in_order() {
    let root = vec![file("b.md"), dir("z", vec![]), file("a.md"), dir("y", vec![file("q")])];
    let tree = build_tree(&root);
    assert_eq!(tree.name, "");
    assert_eq!(tree.path, "");
    let names: Vec<&str> =
        tree.children.as_ref().unwrap().iter().map(|n| n.name.as_str()).collect();
    assert_eq!(names, ["y", "z", "a.md", "b.md"]);
    assert_eq!(tree.children.as_ref().unwrap()[0].children.as_ref().unwrap()[0].path, "y/q");
}

#[test]
fn files_are_counted_in_whole_trees() {
    assert_eq!(count_files(&file("a")), 1);
    assert_eq!(count_files(&RawEntry { name: "l".to_string(), kind: RawKind::Other }), 0);
    let d = dir("d", vec![file("a"), dir("e", vec![file("b"), file(".git")]), dir("f", vec![])]);
    assert_eq!(count_files(&d), 3);
}

#[test]
fn page_path_traversal_blocked() {
    let root = || Ok("/w".to_string());
    assert!(resolve_page(root(), "wiki/a.md", Some("/w/wiki/a.md".to_string()), true).is_ok());
    let bad = resolve_page(root(), "../etc/passwd", None, false).err().unwrap();
    assert_eq!(bad.status, 400);
    let bad2 = resolve_page(root(), "../../etc/passwd", None, false).err().unwrap();
    assert_eq!(bad2.status, 400);
    let missing = resolve_page(root(), "wiki/nope.md", None, false).err().unwrap();
    assert_eq!(missing.status, 404);
}

#[test]
fn page_links_that_lead_out_are_refused() {
    let outside = resolve_page(Ok("/w".into()), "link.md", Some("/etc/x".into()), true);
    assert_eq!(outside.err().unwrap().status, 400);
    let sibling = resolve_page(Ok("/w".into()), "link.md", Some("/w2/x".into()), true);
    assert_eq!(sibling.err().unwrap().status, 400);
    let directory = resolve_page(Ok("/w".into()), "wiki", Some("/w/wiki".into()), false);
    assert_eq!(directory.err().unwrap().status, 400);
    let lost = resolve_page(Err("no root".into()), "wiki", None, false);
    assert_eq!(lost.err().unwrap().status, 500);
    assert_eq!(page_reply("a.md", Ok("x".into())).status, 200);
    assert_eq!(page_reply("a.md", Err("x".into())).status, 500);
}

#[test]
fn frontmatter_types() {
    let t = |s: &str| parse_frontmatter_type(s);
    assert_eq!(t("---\ntype: concept\n---\n"), Some("concept".to_string()));
    assert_eq!(t("---\ntype: \"a b\"\n---\n"), Some("a b".to_string()));
    assert_eq!(t("---\r\n  type:'x'  \r\n---\r\n"), Some("x".to_string()));
    assert_eq!(t("---\ntype:\ntype: y\n---\n"), Some("y".to_string()));
    assert_eq!(t("---\ntitle: x\n---\ntype: late\n"), None);
    assert_eq!(t("type: x\n---\n"), None);
    assert_eq!(t(""), None);
    assert_eq!(t("---\ntype: open"), Some("open".to_string()));
}

#[test]
fn wikilinks_name_their_targets() {
    let l = |s: &str| wikilink_targets(s);
    assert_eq!(l("[[a]] and [[b/c.md#x|y]]"), ["a", "c"]);
    assert_eq!(l("[[概念A#小节|概念A]]"), ["概念A"]);
    assert_eq!(l("[[]] [[ ]] [[#x]] [[|y]] [[d/]]"), Vec::<String>::new());
    assert_eq!(l("[[open and [[b]]"), ["open and [[b"]);
    assert_eq!(l("[[a|x]] [[b"), ["a"]);
    assert_eq!(l("[[x.md.md]]"), ["x.md"]);
}

#[test]
fn unchanged_directories_have_no_diff() {
    let mark = |p: &str, hash: u64| FileMark {
        path: p.split('/').map(|s| s.to_string()).collect(),
        hash,
    };
    let a = snapshot(vec![mark("b", 1), mark("a/x", 2), mark(".git/config", 3), mark("c", 9)]);
    let b = snapshot(vec![mark("a/x", 2), mark("b", 1), mark("c", 9), mark(".git/config", 4)]);
    assert!(diff_snapshots(&a, &b).is_empty());
    let c = snapshot(vec![mark("b", 5), mark("a/x", 2), mark("a/new", 2), mark("B", 1)]);
    assert_eq!(diff_snapshots(&a, &c), ["B", "a/new", "b"]);
    assert_eq!(diff_snapshots(&c, &a), ["b", "c"]);
}

fn snapshot_of_files(files: &[(&str, &str)]) -> Snapshot {
    let marks = files.iter().map(|(p, content)| {
        FileMark::new(p.split('/').map(|s| s.to_string()).collect(), content.as_bytes())
    });
    snapshot(marks.collect())
}

#[test]
fn marks_tell_contents_apart() {
    let hash = |content: &str| FileMark::new(vec!["x".to_string()], content.as_bytes()).hash;
    assert_eq!(hash("one"), hash("one"));
    assert_ne!(hash("one"), hash("two"));
    assert_ne!(hash(""), hash("one"));
    assert_eq!(FileMark::new(vec!["a".to_string(), "b".to_string()], b"").path, ["a", "b"]);
}

#[test]
fn version_control_shows_no_change() {
    let a = snapshot_of_files(&[("a.md", "1"), (".git/HEAD", "x"), ("sub/.git/HEAD", "x")]);
    let b = snapshot_of_files(&[("sub/.git/HEAD", "y"), ("a.md", "1"), (".git/new", "z")]);
    assert!(diff_snapshots(&a, &b).is_empty());
    assert!(diff_snapshots(&b, &a).is_empty());
    let c = snapshot_of_files(&[("a.md", "2"), (".git/HEAD", "x")]);
    assert_eq!(diff_snapshots(&a, &c), ["a.md"]);
}

#[test]
fn snapshots_cover_files_at_any_depth() {
    let entries = vec![
        file("b.md"),
        dir(".git", vec![file("HEAD")]),
        dir(
            "sub",
            vec![file(".git"), file(".gitkeep"), dir("deep", vec![file("c")]), dir("e", vec![])],
        ),
        RawEntry { name: "link".to_string(), kind: RawKind::Other },
    ];
    let files: Vec<String> =
        covered_files(&entries, &vec![]).iter().map(|p| p.join("/")).collect();
    assert_eq!(files, ["b.md", "sub/.gitkeep", "sub/deep/c"]);
}

#[test]
fn paths_that_leave_are_told() {
    for p in ["..", "../x", "a/../../x", "/etc", "a/.."] {
        assert!(escapes_root(p), "{p}");
    }
    for p in ["a", "a/b", "./a", "...", "a..b", ""] {
        assert!(!escapes_root(p), "{p}");
    }
    assert_eq!(join_path("/w", "a/b"), "/w/a/b");
    assert_eq!(join_path("/w/", "a"), "/w/a");
    assert_eq!(join_path("", "a"), "a");
    assert!(is_within("/w", "/w/a"));
    assert!(is_within("/w", "/w"));
    assert!(!is_within("/w", "/wx/a"));
    assert_eq!(file_stem("wiki/a.b.md"), Some("a.b".to_string()));
    assert_eq!(file_stem("wiki/.md"), Some(".md".to_string()));
    assert_eq!(file_stem(".."), None);
}

#[test]
fn junk_is_told_by_its_names() {
    for p in [
        ".git/junk", "a/.obsidian/x", ".trash/y", "__MACOSX/z", "d/.DS_Store", "Thumbs.db",
    ] {
        assert!(is_import_junk(p), "{p}");
    }
    for p in ["wiki/A.md", "a.git/x", ".gitignore", "DS_Store"] {
        assert!(!is_import_junk(p), "{p}");
    }
}
