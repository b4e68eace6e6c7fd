//! What a wiki directory looks like at one moment, and what changed between two moments.

use crate::order::{path_rank, Rank};
#[allow(unused_imports)]
use crate::order::{lemma_path_chain, lemma_path_order, path_lt, paths};
use crate::paths::lists;
use crate::text::{copy_texts, join, same, texts};
#[allow(unused_imports)]
use crate::text::joined;
use crate::tree::{RawEntry, RawKind};
use std::collections::hash_map::DefaultHasher;
use std::hash::Hasher;
use vstd::prelude::*;
#[allow(unused_imports)]
use vstd::std_specs::hash::DefaultHasherAdditionalSpecFns;

verus! {

/// A file and the hash of its content.
pub struct FileMark {
    pub path: Vec<String>,
    pub hash: u64,
}

/// The mathematical content of a mark.
pub struct Mark {
    pub path: Seq<Seq<char>>,
    pub hash: u64,
}

impl View for FileMark {
    type V = Mark;

    open spec fn view(&self) -> Mark {
        Mark { path: texts(self.path@), hash: self.hash }
    }
}

/// The hash of a file's content.
pub open spec fn content_hash(content: Seq<u8>) -> u64 {
    DefaultHasher::spec_finish(seq![content])
}

/// The mark of a file with the given content.
pub open spec fn mark_of(path: Seq<Seq<char>>, content: Seq<u8>) -> Mark {
    Mark { path, hash: content_hash(content) }
}

impl FileMark {
    /// The mark of the file at `path` with the given content.
    pub fn new(path: Vec<String>, content: &[u8]) -> (m: FileMark)
        ensures
            m@ == mark_of(texts(path@), content@),
    {
        let mut hasher = DefaultHasher::new();
        hasher.write(content);
        assert(hasher@ =~= seq![content@]);
        FileMark { path, hash: hasher.finish() }
    }
}

pub open spec fn mark_models(v: Seq<FileMark>) -> Seq<Mark> {
    v.map_values(|m: FileMark| m@)
}

/// The marked files of a directory, in the order of their paths.
pub struct Snapshot {
    marks: Vec<FileMark>,
}

impl View for Snapshot {
    type V = Seq<Mark>;

    closed spec fn view(&self) -> Seq<Mark> {
        mark_models(self.marks@)
    }
}

/// Paths ascend, so that no path stands twice.
pub open spec fn ascends(s: Seq<Mark>) -> bool {
    forall|i: int, j: int| 0 <= i < j < s.len() ==> path_lt(#[trigger] s[i].path, #[trigger] s[j].path)
}

/// Version control is not part of a snapshot.
pub open spec fn kept(path: Seq<Seq<char>>) -> bool {
    !path.contains(".git"@)
}

/// The files of a directory, at any depth, that a snapshot covers, by the names that lead to them.
pub open spec fn covered_in(entries: Seq<RawEntry>, dir: Seq<Seq<char>>) -> Seq<Seq<Seq<char>>>
    decreases entries,
{
    if entries.len() == 0 {
        seq![]
    } else {
        covered_in(entries.drop_last(), dir) + covered_at(entries.last(), dir)
    }
}

pub open spec fn covered_at(e: RawEntry, dir: Seq<Seq<char>>) -> Seq<Seq<Seq<char>>>
    decreases e,
{
    if e.name@ == ".git"@ {
        seq![]
    } else {
        match e.kind {
            RawKind::Dir(inner) => covered_in(inner@, dir.push(e.name@)),
            RawKind::File => seq![dir.push(e.name@)],
            RawKind::Other => seq![],
        }
    }
}

/// The path leads from an entry, which it names first, to a file.
pub open spec fn leads_from(e: RawEntry, path: Seq<Seq<char>>) -> bool
    decreases path.len(), 0int,
{
    path.len() > 0 && e.name@ == path[0] && match e.kind {
        RawKind::Dir(inner) => holds_file(inner@, path.skip(1)),
        RawKind::File => path.len() == 1,
        RawKind::Other => false,
    }
}

/// The path leads through the entries of a directory to a file.
pub open spec fn holds_file(entries: Seq<RawEntry>, path: Seq<Seq<char>>) -> bool
    decreases path.len(), 1int,
{
    exists|i: int| 0 <= i < entries.len() && leads_from(#[trigger] entries[i], path)
}

/// The hash that the last mark of a kept path gives.
pub open spec fn last_hash(marks: Seq<Mark>, path: Seq<Seq<char>>) -> Option<u64>
    decreases marks.len(),
{
    if marks.len() == 0 || !kept(path) {
        None
    } else if marks.last().path == path {
        Some(marks.last().hash)
    } else {
        last_hash(marks.drop_last(), path)
    }
}

pub open spec fn records(s: Seq<Mark>, m: Mark) -> bool {
    exists|i: int| 0 <= i < s.len() && #[trigger] s[i] == m
}

/// `s` is the snapshot of a directory with the given marks.
pub open spec fn is_snapshot(marks: Seq<Mark>, s: Seq<Mark>) -> bool {
    &&& ascends(s)
    &&& forall|m: Mark| #[trigger]
        records(s, m) <==> last_hash(marks, m.path) == Some(m.hash)
}

/// The snapshot of a directory with the given marks.
pub open spec fn snapshot_of(marks: Seq<Mark>) -> Seq<Mark> {
    choose|s: Seq<Mark>| is_snapshot(marks, s)
}

/// The paths in `after` that `before` does not have, or has with another hash.
pub open spec fn changed(before: Seq<Mark>, after: Seq<Mark>) -> Seq<Seq<char>>
    decreases after.len(),
{
    if after.len() == 0 {
        seq![]
    } else if records(before, after.last()) {
        changed(before, after.drop_last())
    } else {
        changed(before, after.drop_last()).push(joined(after.last().path, '/'))
    }
}

/// `s` records `x` once `m` is put over what it has of the same path.
spec fn recorded_with(s: Seq<Mark>, m: Mark, x: Mark) -> bool {
    if x.path == m.path {
        x == m
    } else {
        records(s, x)
    }
}

/// A mark in the place of one of the same path.
proof fn lemma_replaced(start: Seq<Mark>, p: int, x: Mark)
    requires
        ascends(start),
        0 <= p < start.len(),
        start[p].path == x.path,
    ensures
        ascends(start.update(p, x)),
        forall|y: Mark| #[trigger]
            records(start.update(p, x), y) <==> recorded_with(start, x, y),
{
    let now = start.update(p, x);
    assert forall|y: Mark| #[trigger] records(now, y) <==> recorded_with(start, x, y) by {
        if records(now, y) {
            let i = choose|i: int| 0 <= i < now.len() && #[trigger] now[i] == y;
            if i != p {
                assert(start[i] == y);
                lemma_path_order(start[i].path, start[p].path);
                lemma_path_order(start[p].path, start[i].path);
                if i < p {
                    assert(path_lt(start[i].path, start[p].path));
                } else {
                    assert(path_lt(start[p].path, start[i].path));
                }
            }
        }
        if y.path != x.path && records(start, y) {
            let i = choose|i: int| 0 <= i < start.len() && #[trigger] start[i] == y;
            assert(now[i] == y);
        }
        if y == x {
            assert(now[p] == y);
        }
    }
    assert forall|i: int, j: int| 0 <= i < j < now.len() implies path_lt(
        #[trigger] now[i].path,
        #[trigger] now[j].path,
    ) by {
        assert(now[i].path == start[i].path);
        assert(now[j].path == start[j].path);
    }
}

/// A mark of a new path, between the lower and the higher ones.
proof fn lemma_inserted(start: Seq<Mark>, p: int, x: Mark)
    requires
        ascends(start),
        0 <= p <= start.len(),
        forall|i: int| 0 <= i < p ==> path_lt(#[trigger] start[i].path, x.path),
        p < start.len() ==> path_lt(x.path, start[p].path),
    ensures
        ascends(start.insert(p, x)),
        forall|y: Mark| #[trigger]
            records(start.insert(p, x), y) <==> recorded_with(start, x, y),
{
    let now = start.insert(p, x);
    assert forall|i: int| p <= i < start.len() implies path_lt(x.path, #[trigger] start[i].path) by {
        if i > p {
            assert(path_lt(start[p].path, start[i].path));
            lemma_path_chain(x.path, start[p].path, start[i].path);
        }
    }
    assert forall|y: Mark| #[trigger] records(now, y) <==> recorded_with(start, x, y) by {
        if records(now, y) {
            let i = choose|i: int| 0 <= i < now.len() && #[trigger] now[i] == y;
            if i < p {
                assert(start[i] == y);
                lemma_path_order(start[i].path, x.path);
            } else if i > p {
                assert(start[i - 1] == y);
                lemma_path_order(x.path, start[i - 1].path);
            }
        }
        if y.path != x.path && records(start, y) {
            let i = choose|i: int| 0 <= i < start.len() && #[trigger] start[i] == y;
            if i < p {
                assert(now[i] == y);
            } else {
                assert(now[i + 1] == y);
            }
        }
        if y == x {
            assert(now[p] == y);
        }
    }
    assert forall|i: int, j: int| 0 <= i < j < now.len() implies path_lt(
        #[trigger] now[i].path,
        #[trigger] now[j].path,
    ) by {
        if i == p {
            assert(now[j] == start[j - 1]);
        } else if j == p {
            assert(now[i] == start[i]);
        } else {
            let a = if i < p {
                i
            } else {
                i - 1
            };
            let b = if j < p {
                j
            } else {
                j - 1
            };
            assert(now[i] == start[a]);
            assert(now[j] == start[b]);
        }
    }
}

/// Every mark has a place among ascending ones.
proof fn lemma_place(s: Seq<Mark>, path: Seq<Seq<char>>) -> (p: int)
    requires
        ascends(s),
    ensures
        0 <= p <= s.len(),
        forall|i: int| 0 <= i < p ==> path_lt(#[trigger] s[i].path, path),
        p < s.len() ==> s[p].path == path || path_lt(path, s[p].path),
    decreases s.len(),
{
    if s.len() == 0 {
        0
    } else {
        let less = s.drop_last();
        assert(ascends(less)) by {
            assert forall|i: int, j: int| 0 <= i < j < less.len() implies path_lt(
                #[trigger] less[i].path,
                #[trigger] less[j].path,
            ) by {
                assert(path_lt(s[i].path, s[j].path));
            }
        }
        let p = lemma_place(less, path);
        assert forall|i: int| 0 <= i < less.len() implies #[trigger] less[i] == s[i] by {}
        assert forall|i: int| 0 <= i < p implies path_lt(#[trigger] s[i].path, path) by {
            assert(path_lt(less[i].path, path));
        }
        lemma_path_order(s.last().path, path);
        if p == less.len() && path_lt(s.last().path, path) {
            s.len() as int
        } else {
            p
        }
    }
}

/// Every list of marks has a snapshot.
proof fn lemma_snapshot_of(marks: Seq<Mark>)
    ensures
        is_snapshot(marks, snapshot_of(marks)),
    decreases marks.len(),
{
    if marks.len() == 0 {
        assert(is_snapshot(marks, seq![]));
    } else {
        let less = marks.drop_last();
        let x = marks.last();
        lemma_snapshot_of(less);
        let s = snapshot_of(less);
        if kept(x.path) {
            let p = lemma_place(s, x.path);
            let t = if p < s.len() && s[p].path == x.path {
                s.update(p, x)
            } else {
                s.insert(p, x)
            };
            if p < s.len() && s[p].path == x.path {
                lemma_replaced(s, p, x);
            } else {
                lemma_inserted(s, p, x);
            }
            assert forall|m: Mark| #[trigger] records(t, m) <==> last_hash(marks, m.path) == Some(
                m.hash,
            ) by {
                assert(recorded_with(s, x, m) <==> records(t, m));
            }
            assert(is_snapshot(marks, t));
        } else {
            assert(is_snapshot(marks, s));
        }
    }
}

/// Puts a mark in its place, over an older one of the same path.
fn put(marks: &mut Vec<FileMark>, m: FileMark)
    requires
        ascends(mark_models(old(marks)@)),
    ensures
        ascends(mark_models(final(marks)@)),
        forall|x: Mark| #[trigger]
            records(mark_models(final(marks)@), x) <==> recorded_with(
                mark_models(old(marks)@),
                m@,
                x,
            ),
{
    let ghost start = mark_models(marks@);
    let mut p: usize = 0;
    let mut going: bool = true;
    let mut hit: bool = false;
    while going && p < marks.len()
        invariant
            start == mark_models(marks@),
            ascends(start),
            p <= marks@.len(),
            start.len() == marks@.len(),
            going ==> !hit,
            forall|i: int| 0 <= i < p ==> path_lt(#[trigger] start[i].path, m@.path),
            hit ==> p < start.len() && start[p as int].path == m@.path,
            !going && !hit ==> p < start.len() && path_lt(m@.path, start[p as int].path),
        decreases marks@.len() - p,
            if going {
                1int
            } else {
                0int
            },
    {
        match path_rank(&marks[p].path, &m.path) {
            Rank::Less => {
                p += 1;
            },
            Rank::Same => {
                going = false;
                hit = true;
            },
            Rank::More => {
                going = false;
            },
        }
    }
    let ghost x = m@;
    let ghost pi = p as int;
    if hit {
        marks.set(p, m);
        assert(mark_models(marks@) =~= start.update(pi, x));
        proof {
            lemma_replaced(start, pi, x);
        }
    } else {
        marks.insert(p, m);
        assert(mark_models(marks@) =~= start.insert(pi, x));
        proof {
            lemma_inserted(start, pi, x);
        }
    }
}

/// The files that the snapshot of a directory covers, by the names that lead to them.
pub fn covered_files(entries: &Vec<RawEntry>, dir: &Vec<String>) -> (files: Vec<Vec<String>>)
    ensures
        paths(files@) == covered_in(entries@, texts(dir@)),
    decreases entries@,
{
    let mut files: Vec<Vec<String>> = Vec::new();
    let mut i: usize = 0;
    assert(entries@.take(0).len() == 0);
    assert(paths(files@) =~= seq![]);
    while i < entries.len()
        invariant
            i <= entries@.len(),
            paths(files@) == covered_in(entries@.take(i as int), texts(dir@)),
        decreases entries@.len() - i,
    {
        let ghost done = files@;
        assert(entries@.take(i + 1).drop_last() =~= entries@.take(i as int));
        assert(entries@.take(i + 1).last() == entries@[i as int]);
        assert(decreases_to!(entries@ => entries@[i as int]));
        let e = &entries[i];
        let mut path = copy_texts(dir);
        path.push(e.name.clone());
        assert(texts(path@) =~= texts(dir@).push(e.name@));
        if !same(e.name.as_str(), ".git") {
            match &e.kind {
                RawKind::Dir(inner) => {
                    let mut found = covered_files(inner, &path);
                    let ghost f = found@;
                    files.append(&mut found);
                    assert(paths(files@) =~= paths(done) + paths(f));
                },
                RawKind::File => {
                    let ghost p = texts(path@);
                    files.push(path);
                    assert(paths(files@) =~= paths(done) + seq![p]);
                },
                RawKind::Other => {
                    assert(paths(files@) =~= paths(done) + Seq::<Seq<Seq<char>>>::empty());
                },
            }
        } else {
            assert(paths(files@) =~= paths(done) + Seq::<Seq<Seq<char>>>::empty());
        }
        assert(paths(files@) == paths(done) + covered_at(*e, texts(dir@)));
        i += 1;
    }
    assert(entries@.take(entries@.len() as int) =~= entries@);
    files
}

/// The snapshot of a directory from the marks of its files.
pub fn snapshot(files: Vec<FileMark>) -> (s: Snapshot)
    ensures
        is_snapshot(mark_models(files@), s@),
        s@ == snapshot_of(mark_models(files@)),
{
    let ghost all = mark_models(files@);
    let mut marks: Vec<FileMark> = Vec::new();
    let mut i: usize = 0;
    assert(all.take(0) =~= seq![]);
    while i < files.len()
        invariant
            all == mark_models(files@),
            i <= files@.len(),
            ascends(mark_models(marks@)),
            forall|m: Mark| #[trigger]
                records(mark_models(marks@), m) <==> last_hash(all.take(i as int), m.path) == Some(
                    m.hash,
                ),
        decreases files@.len() - i,
    {
        assert(all.take(i + 1).drop_last() =~= all.take(i as int));
        assert(all.take(i + 1).last() == files@[i as int]@);
        let f = &files[i];
        if !lists(&f.path, ".git") {
            let copy = FileMark { path: copy_texts(&f.path), hash: f.hash };
            assert(copy@ == f@);
            put(&mut marks, copy);
        }
        i += 1;
    }
    assert(all.take(all.len() as int) =~= all);
    let s = Snapshot { marks };
    proof {
        assert(is_snapshot(all, s@));
        law_one_snapshot(all, s@, snapshot_of(all));
    }
    s
}

fn has_mark(s: &Snapshot, m: &FileMark) -> (b: bool)
    ensures
        b == records(s@, m@),
{
    let mut i: usize = 0;
    while i < s.marks.len()
        invariant
            i <= s.marks@.len(),
            s@.len() == s.marks@.len(),
            forall|j: int| 0 <= j < i ==> #[trigger] s@[j] != m@,
        decreases s.marks@.len() - i,
    {
        assert(s@[i as int] == s.marks@[i as int]@);
        if s.marks[i].hash == m.hash {
            match path_rank(&s.marks[i].path, &m.path) {
                Rank::Same => {
                    return true;
                },
                _ => {},
            }
        }
        i += 1;
    }
    false
}

/// The files that are new or changed in `after`, in the order of their paths.
pub fn diff_snapshots(before: &Snapshot, after: &Snapshot) -> (files: Vec<String>)
    ensures
        texts(files@) == changed(before@, after@),
{
    let mut files: Vec<String> = Vec::new();
    let mut i: usize = 0;
    assert(after@.take(0) =~= seq![]);
    assert(texts(files@) =~= seq![]);
    while i < after.marks.len()
        invariant
            i <= after.marks@.len(),
            after@.len() == after.marks@.len(),
            texts(files@) == changed(before@, after@.take(i as int)),
        decreases after.marks@.len() - i,
    {
        let ghost done = files@;
        assert(after@.take(i + 1).drop_last() =~= after@.take(i as int));
        assert(after@.take(i + 1).last() == after.marks@[i as int]@);
        if !has_mark(before, &after.marks[i]) {
            let name = join(&after.marks[i].path, '/');
            files.push(name);
            assert(texts(files@) =~= texts(done).push(name@));
        }
        i += 1;
    }
    assert(after@.take(after@.len() as int) =~= after@);
    files
}

proof fn lemma_same_marks(a: Seq<Mark>, b: Seq<Mark>)
    requires
        ascends(a),
        ascends(b),
        forall|m: Mark| #[trigger] records(a, m) <==> records(b, m),
    ensures
        a == b,
    decreases a.len(),
{
    if a.len() == 0 {
        if b.len() > 0 {
            assert(records(b, b[0]));
            assert(records(a, b[0]));
        }
        assert(a =~= b);
    } else {
        let x = a[a.len() - 1];
        assert(records(a, x));
        assert(records(b, x));
        let j = choose|j: int| 0 <= j < b.len() && #[trigger] b[j] == x;
        let y = b[b.len() - 1];
        assert(records(b, y));
        assert(records(a, y));
        let i = choose|i: int| 0 <= i < a.len() && #[trigger] a[i] == y;
        lemma_path_order(x.path, y.path);
        lemma_path_order(y.path, x.path);
        if x != y {
            assert(path_lt(b[j].path, b[b.len() - 1].path));
            assert(path_lt(a[i].path, a[a.len() - 1].path));
        }
        let c = a.drop_last();
        let d = b.drop_last();
        assert forall|m: Mark| #[trigger] records(c, m) <==> records(d, m) by {
            lemma_path_order(m.path, x.path);
            if records(c, m) {
                let k = choose|k: int| 0 <= k < c.len() && #[trigger] c[k] == m;
                assert(a[k] == m);
                assert(path_lt(a[k].path, a[a.len() - 1].path));
                assert(records(a, m));
                assert(records(b, m));
                let q = choose|q: int| 0 <= q < b.len() && #[trigger] b[q] == m;
                assert(d[q] == m);
            }
            if records(d, m) {
                let k = choose|k: int| 0 <= k < d.len() && #[trigger] d[k] == m;
                assert(b[k] == m);
                assert(path_lt(b[k].path, b[b.len() - 1].path));
                assert(records(b, m));
                assert(records(a, m));
                let q = choose|q: int| 0 <= q < a.len() && #[trigger] a[q] == m;
                assert(c[q] == m);
            }
        }
        assert forall|p: int, q: int| 0 <= p < q < c.len() implies path_lt(
            #[trigger] c[p].path,
            #[trigger] c[q].path,
        ) by {
            assert(path_lt(a[p].path, a[q].path));
        }
        assert forall|p: int, q: int| 0 <= p < q < d.len() implies path_lt(
            #[trigger] d[p].path,
            #[trigger] d[q].path,
        ) by {
            assert(path_lt(b[p].path, b[q].path));
        }
        lemma_same_marks(c, d);
        assert(a =~= c.push(x));
        assert(b =~= d.push(y));
    }
}

/// The marks of a directory have one snapshot only.
pub proof fn law_one_snapshot(marks: Seq<Mark>, a: Seq<Mark>, b: Seq<Mark>)
    requires
        is_snapshot(marks, a),
        is_snapshot(marks, b),
    ensures
        a == b,
{
    assert forall|m: Mark| #[trigger] records(a, m) <==> records(b, m) by {}
    lemma_same_marks(a, b);
}

/// A snapshot covers exactly the files of a directory, at any depth, that no name `.git` leads to.
pub proof fn law_covered_files(entries: Seq<RawEntry>, path: Seq<Seq<char>>)
    ensures
        covered_in(entries, seq![]).contains(path) <==> holds_file(entries, path) && kept(path),
{
    lemma_covered_in(entries, seq![], path);
    assert(seq![] + path =~= path);
    if covered_in(entries, seq![]).contains(path) {
        lemma_covered_below(entries, seq![], path);
    }
}

/// What is found in a directory has a path below it.
proof fn lemma_covered_below(
    entries: Seq<RawEntry>,
    dir: Seq<Seq<char>>,
    found: Seq<Seq<char>>,
)
    requires
        covered_in(entries, dir).contains(found),
    ensures
        found.len() > dir.len(),
        found.take(dir.len() as int) == dir,
    decreases entries,
{
    let less = covered_in(entries.drop_last(), dir);
    let e = entries.last();
    let here = covered_at(e, dir);
    let all = covered_in(entries, dir);
    let k = choose|k: int| 0 <= k < all.len() && all[k] == found;
    if k < less.len() {
        assert(less[k] == found);
        lemma_covered_below(entries.drop_last(), dir, found);
    } else {
        assert(here[k - less.len()] == found);
        match e.kind {
            RawKind::Dir(inner) => {
                let below = dir.push(e.name@);
                lemma_covered_below(inner@, below, found);
                assert(found.take(dir.len() as int) =~= below.take(dir.len() as int));
                assert(below.take(dir.len() as int) =~= dir);
            },
            _ => {
                assert(found.take(dir.len() as int) =~= dir);
            },
        }
    }
}

proof fn lemma_covered_in(entries: Seq<RawEntry>, dir: Seq<Seq<char>>, path: Seq<Seq<char>>)
    ensures
        covered_in(entries, dir).contains(dir + path) <==> holds_file(entries, path) && kept(path),
    decreases entries,
{
    let all = covered_in(entries, dir);
    if entries.len() > 0 {
        let front = entries.drop_last();
        let less = covered_in(front, dir);
        let e = entries.last();
        let here = covered_at(e, dir);
        lemma_covered_in(front, dir, path);
        lemma_covered_at(e, dir, path);
        assert(all == less + here);
        if less.contains(dir + path) {
            let k = choose|k: int| 0 <= k < less.len() && less[k] == dir + path;
            assert(all[k] == dir + path);
        }
        if here.contains(dir + path) {
            let k = choose|k: int| 0 <= k < here.len() && here[k] == dir + path;
            assert(all[less.len() + k] == dir + path);
        }
        if all.contains(dir + path) {
            let k = choose|k: int| 0 <= k < all.len() && all[k] == dir + path;
            if k < less.len() {
                assert(less[k] == dir + path);
            } else {
                assert(here[k - less.len()] == dir + path);
            }
        }
        if holds_file(front, path) {
            let i = choose|i: int| 0 <= i < front.len() && leads_from(#[trigger] front[i], path);
            assert(entries[i] == front[i]);
        }
        if leads_from(e, path) {
            assert(entries[entries.len() - 1] == e);
        }
        if holds_file(entries, path) {
            let i = choose|i: int| 0 <= i < entries.len() && leads_from(#[trigger] entries[i], path);
            if i < front.len() {
                assert(front[i] == entries[i]);
            }
        }
    }
}

proof fn lemma_covered_at(e: RawEntry, dir: Seq<Seq<char>>, path: Seq<Seq<char>>)
    ensures
        covered_at(e, dir).contains(dir + path) <==> leads_from(e, path) && kept(path),
    decreases e,
{
    let here = covered_at(e, dir);
    let below = dir.push(e.name@);
    if path.len() > 0 && path[0] == e.name@ {
        let rest = path.skip(1);
        assert(dir + path =~= below + rest);
        assert(kept(path) <==> e.name@ != ".git"@ && kept(rest)) by {
            if rest.contains(".git"@) {
                let k = choose|k: int| 0 <= k < rest.len() && rest[k] == ".git"@;
                assert(path[k + 1] == ".git"@);
            }
            if path.contains(".git"@) {
                let k = choose|k: int| 0 <= k < path.len() && path[k] == ".git"@;
                if k > 0 {
                    assert(rest[k - 1] == ".git"@);
                }
            }
        }
        match e.kind {
            RawKind::Dir(inner) => {
                lemma_covered_in(inner@, below, rest);
            },
            RawKind::File => {
                if path.len() == 1 {
                    assert(below + rest =~= below);
                    assert(e.name@ != ".git"@ ==> here[0] == dir + path);
                } else if here.contains(dir + path) {
                    assert((dir + path).len() == below.len());
                }
            },
            RawKind::Other => {},
        }
    } else if here.contains(dir + path) {
        match e.kind {
            RawKind::Dir(inner) => {
                lemma_covered_below(inner@, below, dir + path);
                assert((dir + path)[dir.len() as int] == path[0]);
                assert((dir + path).take(below.len() as int)[dir.len() as int] == e.name@);
            },
            RawKind::File => {
                assert((dir + path).len() == below.len());
                assert((dir + path)[dir.len() as int] == path[0]);
            },
            RawKind::Other => {},
        }
    }
}

/// Marks that agree outside of version control give one snapshot, and so no difference.
pub proof fn law_agreeing_marks_show_no_change(a: Seq<Mark>, b: Seq<Mark>)
    requires
        forall|path: Seq<Seq<char>>|
            kept(path) ==> #[trigger] last_hash(a, path) == last_hash(b, path),
    ensures
        snapshot_of(a) == snapshot_of(b),
        changed(snapshot_of(a), snapshot_of(b)).len() == 0,
{
    let s = snapshot_of(a);
    let t = snapshot_of(b);
    lemma_snapshot_of(a);
    lemma_snapshot_of(b);
    assert forall|m: Mark| #[trigger] records(s, m) <==> records(t, m) by {
        if kept(m.path) {
            assert(last_hash(a, m.path) == last_hash(b, m.path));
        }
    }
    lemma_same_marks(s, t);
    law_no_change_no_diff(s);
}

/// The marks are those of the files in a directory, as far as a snapshot covers them: each mark is
/// that of a file and its content, and each file has one.
pub open spec fn marks_of(dir: Map<Seq<Seq<char>>, Seq<u8>>, marks: Seq<Mark>) -> bool {
    &&& forall|i: int|
        0 <= i < marks.len() && kept((#[trigger] marks[i]).path) ==> dir.dom().contains(
            marks[i].path,
        ) && marks[i] == mark_of(marks[i].path, dir[marks[i].path])
    &&& forall|path: Seq<Seq<char>>|
        kept(path) && #[trigger] dir.dom().contains(path) ==> records(
            marks,
            mark_of(path, dir[path]),
        )
}

proof fn lemma_marks_of(dir: Map<Seq<Seq<char>>, Seq<u8>>, marks: Seq<Mark>, path: Seq<Seq<char>>)
    requires
        kept(path),
        forall|i: int|
            0 <= i < marks.len() && kept((#[trigger] marks[i]).path) ==> dir.dom().contains(
                marks[i].path,
            ) && marks[i] == mark_of(marks[i].path, dir[marks[i].path]),
    ensures
        last_hash(marks, path) is Some ==> dir.dom().contains(path) && last_hash(marks, path)
            == Some(content_hash(dir[path])),
        dir.dom().contains(path) && records(marks, mark_of(path, dir[path])) ==> last_hash(
            marks,
            path,
        ) is Some,
    decreases marks.len(),
{
    if marks.len() > 0 {
        let less = marks.drop_last();
        assert forall|i: int| 0 <= i < less.len() implies #[trigger] less[i] == marks[i] by {}
        lemma_marks_of(dir, less, path);
        assert(marks[marks.len() - 1] == marks.last());
        let m = mark_of(path, dir[path]);
        if records(marks, m) && marks.last().path != path {
            let i = choose|i: int| 0 <= i < marks.len() && #[trigger] marks[i] == m;
            assert(less[i] == m);
        }
    }
}

/// A snapshot has exactly the files of a directory that no name `.git` leads to, each with the hash
/// of its content.
pub proof fn law_snapshot_has_the_files(
    dir: Map<Seq<Seq<char>>, Seq<u8>>,
    marks: Seq<Mark>,
    m: Mark,
)
    requires
        marks_of(dir, marks),
    ensures
        records(snapshot_of(marks), m) <==> kept(m.path) && dir.dom().contains(m.path) && m.hash
            == content_hash(dir[m.path]),
{
    lemma_snapshot_of(marks);
    if kept(m.path) {
        lemma_marks_of(dir, marks, m.path);
        if dir.dom().contains(m.path) {
            assert(records(marks, mark_of(m.path, dir[m.path])));
        }
    }
}

/// A directory in which nothing changed but version control shows no change.
pub proof fn law_version_control_shows_no_change(
    before: Map<Seq<Seq<char>>, Seq<u8>>,
    after: Map<Seq<Seq<char>>, Seq<u8>>,
    a: Seq<Mark>,
    b: Seq<Mark>,
)
    requires
        marks_of(before, a),
        marks_of(after, b),
        forall|path: Seq<Seq<char>>|
            kept(path) ==> #[trigger] before.dom().contains(path) == after.dom().contains(path) && (
            before.dom().contains(path) ==> before[path] == after[path]),
    ensures
        snapshot_of(a) == snapshot_of(b),
        changed(snapshot_of(a), snapshot_of(b)).len() == 0,
{
    assert forall|path: Seq<Seq<char>>| kept(path) implies #[trigger] last_hash(a, path)
        == last_hash(b, path) by {
        lemma_marks_of(before, a, path);
        lemma_marks_of(after, b, path);
        assert(before.dom().contains(path) == after.dom().contains(path));
        if before.dom().contains(path) {
            assert(records(a, mark_of(path, before[path])));
            assert(records(b, mark_of(path, after[path])));
        }
    }
    law_agreeing_marks_show_no_change(a, b);
}

/// A directory that did not change shows no change.
pub proof fn law_no_change_no_diff(s: Seq<Mark>)
    ensures
        changed(s, s).len() == 0,
{
    lemma_recorded_unchanged(s, s);
}

proof fn lemma_recorded_unchanged(before: Seq<Mark>, after: Seq<Mark>)
    requires
        forall|i: int| 0 <= i < after.len() ==> records(before, #[trigger] after[i]),
    ensures
        changed(before, after).len() == 0,
    decreases after.len(),
{
    if after.len() > 0 {
        assert(records(before, after[after.len() - 1]));
        assert forall|i: int| 0 <= i < after.drop_last().len() implies records(
            before,
            #[trigger] after.drop_last()[i],
        ) by {
            assert(records(before, after[i]));
        }
        lemma_recorded_unchanged(before, after.drop_last());
    }
}

/// A path is reported exactly when some file of that path is new or has another hash.
pub proof fn law_diff_reports_changes(before: Seq<Mark>, after: Seq<Mark>, name: Seq<char>)
    ensures
        changed(before, after).contains(name) <==> exists|i: int|
            0 <= i < after.len() && joined((#[trigger] after[i]).path, '/') == name && !records(
                before,
                after[i],
            ),
    decreases after.len(),
{
    if after.len() > 0 {
        let less = after.drop_last();
        law_diff_reports_changes(before, less, name);
        let a = changed(before, less);
        let b = changed(before, after);
        assert forall|i: int| 0 <= i < less.len() implies #[trigger] less[i] == after[i] by {}
        if b.contains(name) {
            let k = choose|k: int| 0 <= k < b.len() && b[k] == name;
            if k < a.len() {
                assert(a[k] == name);
                assert(a.contains(name));
                let i = choose|i: int|
                    0 <= i < less.len() && joined((#[trigger] less[i]).path, '/') == name
                        && !records(before, less[i]);
                assert(joined(after[i].path, '/') == name);
            } else {
                assert(joined(after[after.len() - 1].path, '/') == name);
            }
        }
        if exists|i: int|
            0 <= i < after.len() && joined((#[trigger] after[i]).path, '/') == name && !records(
                before,
                after[i],
            ) {
            let i = choose|i: int|
                0 <= i < after.len() && joined((#[trigger] after[i]).path, '/') == name && !records(
                    before,
                    after[i],
                );
            if i < less.len() {
                assert(less[i] == after[i]);
                assert(a.contains(name));
                let k = choose|k: int| 0 <= k < a.len() && a[k] == name;
                assert(b[k] == name);
            } else {
                assert(b[b.len() - 1] == name);
            }
        }
    }
}

proof fn lemma_changed_adds(before: Seq<Mark>, a: Seq<Mark>, b: Seq<Mark>)
    ensures
        changed(before, a + b) == changed(before, a) + changed(before, b),
    decreases b.len(),
{
    if b.len() == 0 {
        assert(a + b =~= a);
        assert(changed(before, a) + changed(before, b) =~= changed(before, a));
    } else {
        assert((a + b).drop_last() =~= a + b.drop_last());
        assert((a + b).last() == b.last());
        lemma_changed_adds(before, a, b.drop_last());
        assert(changed(before, a + b) =~= changed(before, a) + changed(before, b));
    }
}

/// Changes are told one by one, in the order of the later snapshot: a file that the earlier one has with
/// the same hash is not told, and any other is told once, by its path.
pub proof fn law_changes_are_told_one_by_one(
    before: Seq<Mark>,
    a: Seq<Mark>,
    b: Seq<Mark>,
    m: Mark,
)
    ensures
        changed(before, seq![]) == Seq::<Seq<char>>::empty(),
        changed(before, a + b) == changed(before, a) + changed(before, b),
        before.contains(m) ==> changed(before, seq![m]) == Seq::<Seq<char>>::empty(),
        !before.contains(m) ==> changed(before, seq![m]) == seq![joined(m.path, '/')],
        records(before, m) <==> before.contains(m),
{
    lemma_changed_adds(before, a, b);
    assert(seq![m].drop_last() =~= seq![]);
    assert(seq![m].last() == m);
    if before.contains(m) {
        let i = choose|i: int| 0 <= i < before.len() && before[i] == m;
        assert(records(before, before[i]));
    }
    if records(before, m) {
        let i = choose|i: int| 0 <= i < before.len() && #[trigger] before[i] == m;
        assert(before.contains(m));
    }
    assert(changed(before, seq![m].drop_last()) =~= seq![]);
    if !before.contains(m) {
        assert(changed(before, seq![m]) =~= seq![joined(m.path, '/')]);
    }
}

/// A snapshot ascends in its paths and has each of them once.
pub proof fn law_snapshots_ascend(marks: Seq<Mark>, i: int, j: int)
    requires
        0 <= i < j < snapshot_of(marks).len(),
    ensures
        path_lt(snapshot_of(marks)[i].path, snapshot_of(marks)[j].path),
        snapshot_of(marks)[i].path != snapshot_of(marks)[j].path,
{
    lemma_snapshot_of(marks);
    let s = snapshot_of(marks);
    assert(path_lt(s[i].path, s[j].path));
    lemma_path_order(s[i].path, s[j].path);
}

/// Of several marks of one path the last one counts; what a name `.git` leads to never does.
pub proof fn law_the_last_mark_counts(marks: Seq<Mark>, m: Mark, path: Seq<Seq<char>>)
    ensures
        path.contains(".git"@) ==> last_hash(marks, path) is None,
        !path.contains(".git"@) && m.path == path ==> last_hash(marks.push(m), path) == Some(m.hash),
        m.path != path ==> last_hash(marks.push(m), path) == last_hash(marks, path),
        last_hash(seq![], path) is None,
{
    assert(marks.push(m).drop_last() =~= marks);
}

/// The mark of a file is of its path and of its content as a whole: files with the same content have
/// the same hash, whatever their paths.
pub proof fn law_marks_go_by_content(
    a: Seq<Seq<char>>,
    b: Seq<Seq<char>>,
    content: Seq<u8>,
)
    ensures
        mark_of(a, content).path == a,
        mark_of(a, content).hash == mark_of(b, content).hash,
        mark_of(a, content).hash == DefaultHasher::spec_finish(seq![content]),
{
}

proof fn lemma_covered_adds(a: Seq<RawEntry>, b: Seq<RawEntry>, dir: Seq<Seq<char>>)
    ensures
        covered_in(a + b, dir) == covered_in(a, dir) + covered_in(b, dir),
    decreases b.len(),
{
    if b.len() == 0 {
        assert(a + b =~= a);
        assert(covered_in(a, dir) + covered_in(b, dir) =~= covered_in(a, dir));
    } else {
        assert((a + b).drop_last() =~= a + b.drop_last());
        assert((a + b).last() == b.last());
        lemma_covered_adds(a, b.drop_last(), dir);
        assert(covered_in(a + b, dir) =~= covered_in(a, dir) + covered_in(b, dir));
    }
}

/// The files of a directory are found one by one, at any depth, under the names that lead to them.
pub proof fn law_covered_files_are_found(
    e: RawEntry,
    a: Seq<RawEntry>,
    b: Seq<RawEntry>,
    dir: Seq<Seq<char>>,
)
    ensures
        covered_in(a + b, dir) == covered_in(a, dir) + covered_in(b, dir),
        covered_in(seq![e], dir) == (if e.name@ == ".git"@ {
            seq![]
        } else {
            match e.kind {
                RawKind::File => seq![dir.push(e.name@)],
                RawKind::Dir(inner) => covered_in(inner@, dir.push(e.name@)),
                RawKind::Other => seq![],
            }
        }),
{
    lemma_covered_adds(a, b, dir);
    let none: Seq<Seq<Seq<char>>> = seq![];
    assert(seq![e].drop_last() =~= seq![]);
    assert(seq![e].last() == e);
    assert(covered_in(seq![e].drop_last(), dir) =~= none);
    assert(none + covered_at(e, dir) =~= covered_at(e, dir));
}

/// The model of the marks is the marks, one for one, each with its whole path and its hash.
pub proof fn law_marks_are_modelled_whole(v: Seq<FileMark>, i: int)
    ensures
        mark_models(v).len() == v.len(),
        0 <= i < v.len() ==> mark_models(v)[i].hash == v[i].hash,
        0 <= i < v.len() ==> mark_models(v)[i].path == v[i].path@.map_values(|s: String| s@),
{
}

} // verus!
