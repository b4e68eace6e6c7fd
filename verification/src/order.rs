//! The order of names and of paths, and stable sorting by it.

use crate::text::{chars_of, texts};
use vstd::prelude::*;

verus! {

/// Texts are ordered by their characters, the first difference deciding.
pub open spec fn text_lt(a: Seq<char>, b: Seq<char>) -> bool
    decreases a.len(),
{
    if b.len() == 0 {
        false
    } else if a.len() == 0 {
        true
    } else if a[0] != b[0] {
        (a[0] as int) < (b[0] as int)
    } else {
        text_lt(a.skip(1), b.skip(1))
    }
}

/// Paths are ordered by their names, the first difference deciding.
pub open spec fn path_lt(a: Seq<Seq<char>>, b: Seq<Seq<char>>) -> bool
    decreases a.len(),
{
    if b.len() == 0 {
        false
    } else if a.len() == 0 {
        true
    } else if a[0] != b[0] {
        text_lt(a[0], b[0])
    } else {
        path_lt(a.skip(1), b.skip(1))
    }
}

pub enum Rank {
    Less,
    Same,
    More,
}

/// The paths that a list of name lists holds.
pub open spec fn paths(v: Seq<Vec<String>>) -> Seq<Seq<Seq<char>>> {
    v.map_values(|p: Vec<String>| texts(p@))
}

/// Place `a` comes before place `b`: by its key, and by its place where the keys are the same.
pub open spec fn precedes(keys: Seq<Seq<Seq<char>>>, a: int, b: int) -> bool {
    path_lt(keys[a], keys[b]) || (keys[a] == keys[b] && a < b)
}

pub open spec fn listed(order: Seq<usize>, k: int) -> bool {
    exists|i: int| 0 <= i < order.len() && #[trigger] order[i] == k
}

/// `order` lists every place of `keys` once, smaller keys first, and equal keys as they stood.
pub open spec fn is_order(keys: Seq<Seq<Seq<char>>>, order: Seq<usize>) -> bool {
    &&& order.len() == keys.len()
    &&& forall|i: int| 0 <= i < order.len() ==> #[trigger] order[i] < keys.len()
    &&& forall|k: int| 0 <= k < keys.len() ==> #[trigger] listed(order, k)
    &&& forall|i: int, j: int|
        0 <= i < j < order.len() ==> #[trigger] precedes(keys, order[i] as int, order[j] as int)
}

pub proof fn lemma_text_order(a: Seq<char>, b: Seq<char>)
    ensures
        a == b ==> !text_lt(a, b),
        text_lt(a, b) ==> !text_lt(b, a),
        text_lt(a, b) || text_lt(b, a) || a == b,
    decreases a.len(),
{
    if a.len() > 0 && b.len() > 0 {
        if a[0] == b[0] {
            lemma_text_order(a.skip(1), b.skip(1));
            if a.skip(1) == b.skip(1) {
                assert(a =~= seq![a[0]] + a.skip(1));
                assert(b =~= seq![b[0]] + b.skip(1));
            }
        }
    } else if a.len() == b.len() {
        assert(a =~= b);
    }
}

pub proof fn lemma_text_chain(a: Seq<char>, b: Seq<char>, c: Seq<char>)
    requires
        text_lt(a, b),
        text_lt(b, c),
    ensures
        text_lt(a, c),
    decreases a.len(),
{
    if a.len() > 0 && b.len() > 0 && c.len() > 0 && a[0] == b[0] && b[0] == c[0] {
        lemma_text_chain(a.skip(1), b.skip(1), c.skip(1));
    }
}

pub proof fn lemma_path_order(a: Seq<Seq<char>>, b: Seq<Seq<char>>)
    ensures
        a == b ==> !path_lt(a, b),
        path_lt(a, b) ==> !path_lt(b, a),
        path_lt(a, b) || path_lt(b, a) || a == b,
    decreases a.len(),
{
    if a.len() > 0 && b.len() > 0 {
        lemma_text_order(a[0], b[0]);
        if a[0] == b[0] {
            lemma_path_order(a.skip(1), b.skip(1));
            if a.skip(1) == b.skip(1) {
                assert(a =~= seq![a[0]] + a.skip(1));
                assert(b =~= seq![b[0]] + b.skip(1));
            }
        }
    } else if a.len() == b.len() {
        assert(a =~= b);
    }
}

pub proof fn lemma_path_chain(a: Seq<Seq<char>>, b: Seq<Seq<char>>, c: Seq<Seq<char>>)
    requires
        path_lt(a, b),
        path_lt(b, c),
    ensures
        path_lt(a, c),
    decreases a.len(),
{
    if a.len() > 0 && b.len() > 0 && c.len() > 0 {
        if a[0] == b[0] && b[0] == c[0] {
            lemma_path_chain(a.skip(1), b.skip(1), c.skip(1));
        } else if a[0] != b[0] && b[0] != c[0] {
            lemma_text_chain(a[0], b[0], c[0]);
            lemma_text_order(a[0], c[0]);
        }
    }
}

proof fn lemma_precedes_chain(keys: Seq<Seq<Seq<char>>>, a: int, b: int, c: int)
    requires
        precedes(keys, a, b),
        precedes(keys, b, c),
    ensures
        precedes(keys, a, c),
{
    if path_lt(keys[a], keys[b]) && path_lt(keys[b], keys[c]) {
        lemma_path_chain(keys[a], keys[b], keys[c]);
    }
}

/// How two texts are ordered.
pub fn text_rank(a: &str, b: &str) -> (r: Rank)
    ensures
        r is Less <==> text_lt(a@, b@),
        r is Same <==> a@ == b@,
        r is More <==> text_lt(b@, a@),
{
    let x = chars_of(a);
    let y = chars_of(b);
    let mut i: usize = 0;
    proof {
        lemma_text_order(a@, b@);
        assert(a@.skip(0) =~= a@);
        assert(b@.skip(0) =~= b@);
    }
    while i < x.len() && i < y.len() && x[i] == y[i]
        invariant
            x@ == a@,
            y@ == b@,
            i <= a@.len(),
            i <= b@.len(),
            a@.take(i as int) == b@.take(i as int),
            text_lt(a@, b@) == text_lt(a@.skip(i as int), b@.skip(i as int)),
            text_lt(b@, a@) == text_lt(b@.skip(i as int), a@.skip(i as int)),
        decreases a@.len() - i,
    {
        assert(a@.skip(i as int).skip(1) =~= a@.skip(i + 1));
        assert(b@.skip(i as int).skip(1) =~= b@.skip(i + 1));
        assert(a@.take(i + 1) =~= a@.take(i as int).push(a@[i as int]));
        assert(b@.take(i + 1) =~= b@.take(i as int).push(b@[i as int]));
        i += 1;
    }
    if i >= y.len() {
        if i >= x.len() {
            assert(a@.take(i as int) =~= a@);
            assert(b@.take(i as int) =~= b@);
            Rank::Same
        } else {
            Rank::More
        }
    } else if i >= x.len() {
        Rank::Less
    } else if x[i] < y[i] {
        Rank::Less
    } else {
        Rank::More
    }
}

/// How two paths are ordered.
pub fn path_rank(a: &Vec<String>, b: &Vec<String>) -> (r: Rank)
    ensures
        r is Less <==> path_lt(texts(a@), texts(b@)),
        r is Same <==> texts(a@) == texts(b@),
        r is More <==> path_lt(texts(b@), texts(a@)),
{
    let ghost x = texts(a@);
    let ghost y = texts(b@);
    let mut i: usize = 0;
    proof {
        lemma_path_order(x, y);
        assert(x.skip(0) =~= x);
        assert(y.skip(0) =~= y);
    }
    while i < a.len() && i < b.len()
        invariant
            x == texts(a@),
            y == texts(b@),
            i <= x.len(),
            i <= y.len(),
            x.take(i as int) == y.take(i as int),
            path_lt(x, y) == path_lt(x.skip(i as int), y.skip(i as int)),
            path_lt(y, x) == path_lt(y.skip(i as int), x.skip(i as int)),
            x == y ==> !path_lt(x, y) && !path_lt(y, x),
            path_lt(x, y) ==> !path_lt(y, x),
        decreases x.len() - i,
    {
        proof {
            assert(x.skip(i as int).skip(1) =~= x.skip(i + 1));
            assert(y.skip(i as int).skip(1) =~= y.skip(i + 1));
            assert(x.take(i + 1) =~= x.take(i as int).push(x[i as int]));
            assert(y.take(i + 1) =~= y.take(i as int).push(y[i as int]));
            lemma_text_order(x[i as int], y[i as int]);
        }
        match text_rank(a[i].as_str(), b[i].as_str()) {
            Rank::Less => {
                return Rank::Less;
            },
            Rank::More => {
                return Rank::More;
            },
            Rank::Same => {},
        }
        i += 1;
    }
    if i >= b.len() {
        if i >= a.len() {
            assert(x.take(i as int) =~= x);
            assert(y.take(i as int) =~= y);
            Rank::Same
        } else {
            Rank::More
        }
    } else {
        Rank::Less
    }
}

/// The places of the keys, smaller keys first, equal keys as they stand.
pub fn sorted_places(keys: &Vec<Vec<String>>) -> (order: Vec<usize>)
    ensures
        is_order(paths(keys@), order@),
{
    let ghost ks = paths(keys@);
    let mut order: Vec<usize> = Vec::new();
    let mut k: usize = 0;
    while k < keys.len()
        invariant
            ks == paths(keys@),
            k <= keys@.len(),
            order@.len() == k,
            forall|i: int| 0 <= i < k ==> #[trigger] order@[i] < k,
            forall|q: int| 0 <= q < k ==> #[trigger] listed(order@, q),
            forall|i: int, j: int|
                0 <= i < j < k ==> #[trigger] precedes(ks, order@[i] as int, order@[j] as int),
        decreases keys@.len() - k,
    {
        let ghost before = order@;
        let mut p: usize = k;
        let mut going: bool = true;
        while going && p > 0
            invariant
                ks == paths(keys@),
                k < keys@.len(),
                order@ == before,
                before.len() == k,
                p <= k,
                forall|i: int| 0 <= i < k ==> #[trigger] before[i] < k,
                forall|i: int| p <= i < k ==> path_lt(ks[k as int], ks[#[trigger] before[i] as int]),
                !going ==> p > 0 && !path_lt(ks[k as int], ks[before[p - 1] as int]),
            decreases p, if going { 1int } else { 0int },
        {
            match path_rank(&keys[k], &keys[order[p - 1]]) {
                Rank::Less => {
                    p -= 1;
                },
                _ => {
                    proof {
                        lemma_path_order(ks[k as int], ks[before[p - 1] as int]);
                    }
                    going = false;
                },
            }
        }
        order.insert(p, k);
        proof {
            assert forall|i: int, j: int| 0 <= i < j < k + 1 implies #[trigger] precedes(
                ks,
                order@[i] as int,
                order@[j] as int,
            ) by {
                if j == p {
                    lemma_path_order(ks[k as int], ks[before[p - 1] as int]);
                    if i < p - 1 {
                        assert(precedes(ks, before[i] as int, before[p - 1] as int));
                        lemma_precedes_chain(ks, before[i] as int, before[p - 1] as int, k as int);
                    }
                } else if i == p {
                    assert(order@[j] == before[j - 1]);
                } else {
                    let a = if i < p {
                        i
                    } else {
                        i - 1
                    };
                    let b = if j < p {
                        j
                    } else {
                        j - 1
                    };
                    assert(order@[i] == before[a]);
                    assert(order@[j] == before[b]);
                    assert(precedes(ks, before[a] as int, before[b] as int));
                }
            }
            assert forall|q: int| 0 <= q < k + 1 implies #[trigger] listed(order@, q) by {
                if q < k {
                    assert(listed(before, q));
                    let at = choose|at: int| 0 <= at < before.len() && #[trigger] before[at] == q;
                    if at < p {
                        assert(order@[at] == q);
                    } else {
                        assert(order@[at + 1] == q);
                    }
                } else {
                    assert(order@[p as int] == q);
                }
            }
        }
        k += 1;
    }
    order
}

proof fn lemma_orders_agree(
    keys: Seq<Seq<Seq<char>>>,
    a: Seq<usize>,
    b: Seq<usize>,
    n: int,
)
    requires
        is_order(keys, a),
        is_order(keys, b),
        0 <= n <= keys.len(),
    ensures
        forall|i: int| 0 <= i < n ==> a[i] == b[i],
    decreases n,
{
    if n > 0 {
        let m = n - 1;
        lemma_orders_agree(keys, a, b, m);
        let x = a[m] as int;
        let y = b[m] as int;
        assert(listed(b, x));
        let k = choose|k: int| 0 <= k < b.len() && #[trigger] b[k] == x;
        assert(listed(a, y));
        let q = choose|q: int| 0 <= q < a.len() && #[trigger] a[q] == y;
        lemma_path_order(keys[x], keys[y]);
        lemma_path_order(keys[x], keys[x]);
        lemma_path_order(keys[y], keys[y]);
        if x != y {
            if k < m {
                assert(precedes(keys, a[k] as int, a[m] as int));
            } else {
                assert(precedes(keys, b[m] as int, b[k] as int));
            }
            if q < m {
                assert(precedes(keys, b[q] as int, b[m] as int));
            } else {
                assert(precedes(keys, a[m] as int, a[q] as int));
            }
        }
    }
}

/// Keys have one order only.
pub proof fn law_one_order(keys: Seq<Seq<Seq<char>>>, a: Seq<usize>, b: Seq<usize>)
    requires
        is_order(keys, a),
        is_order(keys, b),
    ensures
        a == b,
{
    lemma_orders_agree(keys, a, b, keys.len() as int);
    assert(a =~= b);
}

/// Texts are ordered as in a dictionary, by the codes of their characters: what they have in common at
/// the beginning does not count, the first difference decides, and a text comes before its
/// continuations.
pub proof fn law_texts_are_ordered_by_their_first_difference(
    common: Seq<char>,
    a: Seq<char>,
    b: Seq<char>,
)
    ensures
        text_lt(common + a, common + b) == text_lt(a, b),
        a.len() > 0 && b.len() > 0 && a[0] != b[0] ==> (text_lt(a, b) <==> (a[0] as int) < (
        b[0] as int)),
        b.len() > 0 ==> text_lt(common, common + b),
        !text_lt(common + b, common),
    decreases common.len(),
{
    let none: Seq<char> = seq![];
    if common.len() == 0 {
        assert(common + a =~= a);
        assert(common + b =~= b);
    } else {
        let rest = common.skip(1);
        law_texts_are_ordered_by_their_first_difference(rest, a, b);
        assert((common + a).skip(1) =~= rest + a);
        assert((common + b).skip(1) =~= rest + b);
    }
}

/// Paths are ordered as in a dictionary, by the order of their names.
pub proof fn law_paths_are_ordered_by_their_first_difference(
    common: Seq<Seq<char>>,
    a: Seq<Seq<char>>,
    b: Seq<Seq<char>>,
)
    ensures
        path_lt(common + a, common + b) == path_lt(a, b),
        a.len() > 0 && b.len() > 0 && a[0] != b[0] ==> (path_lt(a, b) <==> text_lt(a[0], b[0])),
        b.len() > 0 ==> path_lt(common, common + b),
        !path_lt(common + b, common),
    decreases common.len(),
{
    if common.len() == 0 {
        assert(common + a =~= a);
        assert(common + b =~= b);
    } else {
        let rest = common.skip(1);
        law_paths_are_ordered_by_their_first_difference(rest, a, b);
        assert((common + a).skip(1) =~= rest + a);
        assert((common + b).skip(1) =~= rest + b);
    }
}

/// An order of keys lists every place exactly once, with the keys ascending, and places of equal keys
/// ascending too.
pub proof fn law_orders_ascend(
    keys: Seq<Seq<Seq<char>>>,
    order: Seq<usize>,
    i: int,
    j: int,
    k: int,
)
    requires
        is_order(keys, order),
        0 <= i < j < order.len(),
    ensures
        order.len() == keys.len(),
        order[i] != order[j],
        order[i] < keys.len(),
        !path_lt(keys[order[j] as int], keys[order[i] as int]),
        keys[order[i] as int] == keys[order[j] as int] ==> order[i] < order[j],
        0 <= k < keys.len() ==> exists|n: int| 0 <= n < order.len() && #[trigger] order[n] == k,
{
    assert(precedes(keys, order[i] as int, order[j] as int));
    lemma_path_order(keys[order[i] as int], keys[order[j] as int]);
    if 0 <= k < keys.len() {
        assert(listed(order, k));
    }
}

/// The paths of a list are those that it lists, name by name.
pub proof fn law_paths_list_their_names(v: Seq<Vec<String>>, i: int, k: int)
    ensures
        paths(v).len() == v.len(),
        0 <= i < v.len() ==> paths(v)[i].len() == v[i]@.len(),
        0 <= i < v.len() && 0 <= k < v[i]@.len() ==> paths(v)[i][k] == v[i]@[k]@,
{
}

} // verus!
