//! What the wiki reads out of a page: the type in its front matter, and the pages it links to.

use crate::text::{
    after_last, before, chars_of, ends, find, find_after_last, find_pair, line_ranges, lines,
    matches_at, pos_pair, starts, strip, strip_range, text_of, texts, trim, Strip,
};
#[allow(unused_imports)]
use crate::text::{
    law_before_and_after,
    law_first_pairs,
    lemma_pos,
    lemma_pos_is,
    lemma_pos_pair,
    lemma_strip_back,
    lemma_strip_front,
    pos,
    strip_back,
    strip_front,
};
use vstd::prelude::*;

verus! {

/// A value without its quotation marks.
pub open spec fn unquoted(v: Seq<char>) -> Seq<char> {
    strip(strip(v, Strip::Mark('"')), Strip::Mark('\''))
}

/// The value of a `type:` line, unless it is empty.
pub open spec fn type_value(line: Seq<char>) -> Option<Seq<char>> {
    if starts(line, "type:"@) && unquoted(trim(line.skip("type:"@.len() as int))).len() > 0 {
        Some(unquoted(trim(line.skip("type:"@.len() as int))))
    } else {
        None
    }
}

/// The first type that the lines give before the front matter ends.
pub open spec fn first_type(ls: Seq<Seq<char>>) -> Option<Seq<char>>
    decreases ls.len(),
{
    if ls.len() == 0 || trim(ls[0]) == "---"@ {
        None
    } else if type_value(trim(ls[0])) is Some {
        type_value(trim(ls[0]))
    } else {
        first_type(ls.skip(1))
    }
}

/// The type of a page: front matter opens on the first line, or there is none.
pub open spec fn frontmatter_type(content: Seq<char>) -> Option<Seq<char>> {
    let ls = lines(content);
    if ls.len() > 0 && trim(ls[0]) == "---"@ {
        first_type(ls.skip(1))
    } else {
        None
    }
}

/// The page that a link names: no anchor, no link text, no directory, no extension.
pub open spec fn link_stem(raw: Seq<char>) -> Seq<char> {
    let base = trim(after_last(before(before(raw, '#'), '|'), '/'));
    trim(
        if ends(base, ".md"@) {
            base.take(base.len() - ".md"@.len())
        } else {
            base
        },
    )
}

/// The pages that a text links to by `[[...]]`, in their order; links that name nothing are left out.
pub open spec fn links(s: Seq<char>) -> Seq<Seq<char>>
    decreases s.len(),
    via links_shrink
{
    let i = pos_pair(s, '[');
    if i >= s.len() {
        seq![]
    } else {
        let rest = s.skip(i + 2);
        let j = pos_pair(rest, ']');
        if j >= rest.len() {
            seq![]
        } else {
            let name = link_stem(rest.take(j));
            (if name.len() > 0 {
                seq![name]
            } else {
                seq![]
            }) + links(rest.skip(j + 2))
        }
    }
}

#[via_fn]
proof fn links_shrink(s: Seq<char>) {
    lemma_pos_pair(s, '[');
    let i = pos_pair(s, '[');
    if i < s.len() {
        lemma_pos_pair(s.skip(i + 2), ']');
    }
}

fn range_is(cs: &Vec<char>, from: usize, to: usize, p: &Vec<char>) -> (r: bool)
    requires
        from <= to <= cs@.len(),
    ensures
        r == (cs@.subrange(from as int, to as int) == p@),
{
    if to - from != p.len() {
        assert(cs@.subrange(from as int, to as int).len() != p@.len());
        return false;
    }
    matches_at(cs, from, p)
}

/// The `type:` of the front matter that a page opens with.
pub fn parse_frontmatter_type(content: &str) -> (r: Option<String>)
    ensures
        r is Some <==> frontmatter_type(content@) is Some,
        r matches Some(t) ==> t@ == frontmatter_type(content@)->0,
{
    let cs = chars_of(content);
    let rs = line_ranges(&cs);
    let fence = chars_of("---");
    let key = chars_of("type:");
    let ghost ls = lines(content@);
    if rs.len() == 0 {
        return None;
    }
    let (a, b) = strip_range(&cs, rs[0].0, rs[0].1, Strip::Space);
    if !range_is(&cs, a, b, &fence) {
        return None;
    }
    let mut i: usize = 1;
    while i < rs.len()
        invariant
            cs@ == content@,
            ls == lines(content@),
            fence@ == "---"@,
            key@ == "type:"@,
            1 <= i <= rs@.len() == ls.len(),
            forall|k: int|
                0 <= k < rs@.len() ==> (#[trigger] rs@[k]).0 <= rs@[k].1 <= cs@.len()
                    && cs@.subrange(rs@[k].0 as int, rs@[k].1 as int) == ls[k],
            frontmatter_type(content@) == first_type(ls.skip(i as int)),
        decreases rs@.len() - i,
    {
        assert(ls.skip(i as int)[0] == ls[i as int]);
        assert(ls.skip(i as int).skip(1) =~= ls.skip(i + 1));
        let (from, to) = rs[i];
        let (a, b) = strip_range(&cs, from, to, Strip::Space);
        let ghost line = trim(ls[i as int]);
        if range_is(&cs, a, b, &fence) {
            return None;
        }
        if b - a >= key.len() {
            assert(cs@.subrange(a as int, a + key@.len()) =~= line.take("type:"@.len() as int));
            if matches_at(&cs, a, &key) {
                assert(cs@.subrange(a + key@.len(), b as int) =~= line.skip("type:"@.len() as int));
                let (c, d) = strip_range(&cs, a + key.len(), b, Strip::Space);
                let (e, f) = strip_range(&cs, c, d, Strip::Mark('"'));
                let (g, h) = strip_range(&cs, e, f, Strip::Mark('\''));
                if g < h {
                    return Some(text_of(&cs, g, h));
                }
            }
        }
        i += 1;
    }
    assert(ls.skip(i as int).len() == 0);
    None
}

/// The pages that a page links to, in their order.
pub fn wikilink_targets(content: &str) -> (out: Vec<String>)
    ensures
        texts(out@) == links(content@),
{
    let cs = chars_of(content);
    let n: usize = cs.len();
    let md = chars_of(".md");
    let mut out: Vec<String> = Vec::new();
    let mut at: usize = 0;
    assert(cs@.skip(0) =~= content@);
    loop
        invariant
            cs@ == content@,
            n == cs@.len(),
            md@ == ".md"@,
            at <= n,
            texts(out@) + links(cs@.skip(at as int)) == links(content@),
        ensures
            texts(out@) == links(content@),
        decreases n - at,
    {
        let ghost s = cs@.skip(at as int);
        let ghost done = texts(out@);
        let i: usize = find_pair(&cs, at, '[');
        if i >= n {
            assert(done + links(s) =~= done);
            break;
        }
        let from: usize = i + 2;
        assert(s.skip(i - at + 2) =~= cs@.skip(from as int));
        let j: usize = find_pair(&cs, from, ']');
        if j >= n {
            assert(done + links(s) =~= done);
            break;
        }
        let ghost rest = cs@.skip(from as int);
        let ghost raw = rest.take(j - from);
        assert(cs@.subrange(from as int, j as int) =~= raw);
        let hash: usize = find(&cs, from, j, '#');
        assert(cs@.subrange(from as int, hash as int) =~= before(raw, '#'));
        let bar: usize = find(&cs, from, hash, '|');
        assert(cs@.subrange(from as int, bar as int) =~= before(before(raw, '#'), '|'));
        let slash: usize = find_after_last(&cs, from, bar, '/');
        let (a, b) = strip_range(&cs, slash, bar, Strip::Space);
        let ghost base = trim(after_last(before(before(raw, '#'), '|'), '/'));
        assert(cs@.subrange(a as int, b as int) == base);
        let mut stop: usize = b;
        if b - a >= md.len() {
            assert(cs@.subrange(b - md@.len(), b as int) =~= base.skip(base.len() - ".md"@.len()));
            if matches_at(&cs, b - md.len(), &md) {
                stop = b - md.len();
                assert(cs@.subrange(a as int, stop as int) =~= base.take(
                    base.len() - ".md"@.len(),
                ));
            }
        }
        let (c, d) = strip_range(&cs, a, stop, Strip::Space);
        let ghost name = link_stem(raw);
        assert(cs@.subrange(c as int, d as int) == name);
        assert(rest.skip(j - from + 2) =~= cs@.skip(j + 2));
        if c < d {
            let t = text_of(&cs, c, d);
            let ghost old_out = out@;
            out.push(t);
            assert(texts(out@) =~= texts(old_out).push(t@));
            assert(texts(out@) + links(cs@.skip(j + 2)) =~= done + (seq![name] + links(
                cs@.skip(j + 2),
            )));
        } else {
            let ghost empty: Seq<Seq<char>> = seq![];
            assert(empty + links(cs@.skip(j + 2)) =~= links(cs@.skip(j + 2)));
        }
        at = j + 2;
    }
    out
}

proof fn lemma_trim_ends(s: Seq<char>)
    ensures
        trim(s).len() <= s.len(),
        trim(s).len() > 0 ==> !crate::text::is_space(trim(s)[0]) && !crate::text::is_space(
            trim(s).last(),
        ),
{
    lemma_strip_front(s, Strip::Space);
    lemma_strip_back(crate::text::strip_front(s, Strip::Space), Strip::Space);
}

/// Every page that a text links to has a name, and the name has no white space at its ends.
pub proof fn law_links_name_something(s: Seq<char>, k: int)
    requires
        0 <= k < links(s).len(),
    ensures
        links(s)[k].len() > 0,
        !crate::text::is_space(links(s)[k][0]),
        !crate::text::is_space(links(s)[k].last()),
    decreases s.len(),
{
    lemma_pos_pair(s, '[');
    let i = pos_pair(s, '[');
    let rest = s.skip(i + 2);
    lemma_pos_pair(rest, ']');
    let j = pos_pair(rest, ']');
    let name = link_stem(rest.take(j));
    let base = trim(after_last(before(before(rest.take(j), '#'), '|'), '/'));
    lemma_trim_ends(
        if ends(base, ".md"@) {
            base.take(base.len() - ".md"@.len())
        } else {
            base
        },
    );
    if name.len() > 0 {
        if k > 0 {
            assert(links(s)[k] == links(rest.skip(j + 2))[k - 1]);
            law_links_name_something(rest.skip(j + 2), k - 1);
        }
    } else {
        assert(links(s)[k] == links(rest.skip(j + 2))[k]);
        law_links_name_something(rest.skip(j + 2), k);
    }
}

proof fn lemma_first_type_named(ls: Seq<Seq<char>>)
    ensures
        first_type(ls) matches Some(t) ==> t.len() > 0,
    decreases ls.len(),
{
    if ls.len() > 0 && trim(ls[0]) != "---"@ && type_value(trim(ls[0])) is None {
        lemma_first_type_named(ls.skip(1));
    }
}

/// A page that does not open with a `---` line has no type, and a type is never empty.
pub proof fn law_types_stand_in_front_matter(content: Seq<char>)
    ensures
        frontmatter_type(content) matches Some(t) ==> t.len() > 0 && lines(content).len() > 0
            && trim(lines(content)[0]) == "---"@,
{
    let ls = lines(content);
    if ls.len() > 0 {
        lemma_first_type_named(ls.skip(1));
    }
}

/// Two equal characters stand one after the other nowhere in the text, nor begin at its end.
pub open spec fn without_pair(s: Seq<char>, c: char) -> bool {
    &&& forall|i: int| 0 <= i < s.len() - 1 ==> !((#[trigger] s[i]) == c && s[i + 1] == c)
    &&& s.len() > 0 ==> s[s.len() - 1] != c
}

proof fn lemma_pair_is_at(s: Seq<char>, c: char, n: int)
    requires
        0 <= n,
        n + 1 < s.len(),
        s[n] == c,
        s[n + 1] == c,
        forall|i: int| 0 <= i < n ==> !((#[trigger] s[i]) == c && s[i + 1] == c),
    ensures
        pos_pair(s, c) == n,
{
    let p = pos_pair(s, c);
    law_first_pairs(s, c, n);
    if p < n {
        assert(!(s[p] == c && s[p + 1] == c));
    }
}

proof fn lemma_no_pair(s: Seq<char>, c: char)
    requires
        without_pair(s, c),
    ensures
        pos_pair(s, c) == s.len(),
{
    let p = pos_pair(s, c);
    law_first_pairs(s, c, 0);
    if p < s.len() {
        assert(!(s[p] == c && s[p + 1] == c));
    }
}

/// A text links to the pages that it names between double brackets, one after the other: what stands
/// around the brackets does not count, nor do brackets that are not closed, or that name nothing.
pub proof fn law_links_stand_in_brackets(text: Seq<char>, raw: Seq<char>, rest: Seq<char>)
    requires
        without_pair(text, '['),
        without_pair(raw, ']'),
    ensures
        links(text) == Seq::<Seq<char>>::empty(),
        links(text + seq!['[', '['] + raw) == Seq::<Seq<char>>::empty(),
        links(text + seq!['[', '['] + raw + seq![']', ']'] + rest) == (if link_stem(raw).len() > 0 {
            seq![link_stem(raw)]
        } else {
            seq![]
        }) + links(rest),
{
    lemma_no_pair(text, '[');
    lemma_no_pair(raw, ']');
    let n = text.len() as int;
    let open = text + seq!['[', '['] + raw;
    assert forall|i: int| 0 <= i < n implies !((#[trigger] open[i]) == '[' && open[i + 1] == '[') by {
        assert(open[i] == text[i]);
        if i < n - 1 {
            assert(open[i + 1] == text[i + 1]);
        }
    }
    lemma_pair_is_at(open, '[', n);
    assert(open.skip(n + 2) =~= raw);
    let s = text + seq!['[', '['] + raw + seq![']', ']'] + rest;
    assert forall|i: int| 0 <= i < n implies !((#[trigger] s[i]) == '[' && s[i + 1] == '[') by {
        assert(s[i] == text[i]);
        if i < n - 1 {
            assert(s[i + 1] == text[i + 1]);
        }
    }
    lemma_pair_is_at(s, '[', n);
    let inner = raw + seq![']', ']'] + rest;
    assert(s.skip(n + 2) =~= inner);
    let m = raw.len() as int;
    assert forall|i: int| 0 <= i < m implies !((#[trigger] inner[i]) == ']' && inner[i + 1] == ']') by {
        assert(inner[i] == raw[i]);
        if i < m - 1 {
            assert(inner[i + 1] == raw[i + 1]);
        }
    }
    lemma_pair_is_at(inner, ']', m);
    assert(inner.take(m) =~= raw);
    assert(inner.skip(m + 2) =~= rest);
}

/// The text has no white space at its ends.
pub open spec fn is_tidy(s: Seq<char>) -> bool {
    s.len() > 0 && !crate::text::is_space(s[0]) && !crate::text::is_space(s[s.len() - 1])
}

proof fn lemma_tidy(s: Seq<char>)
    requires
        is_tidy(s),
    ensures
        trim(s) == s,
{
    assert(strip_front(s, Strip::Space) == s);
    assert(strip_back(s, Strip::Space) == s);
}

proof fn lemma_before_is(x: Seq<char>, c: char, more: Seq<char>)
    requires
        !x.contains(c),
    ensures
        before(x, c) == x,
        before(x + seq![c] + more, c) == x,
{
    assert forall|j: int| 0 <= j < x.len() implies x[j] != c by {
        assert(x.contains(x[j]));
    }
    lemma_pos_is(x, c, x.len() as int);
    assert(x.take(x.len() as int) =~= x);
    let s = x + seq![c] + more;
    assert forall|j: int| 0 <= j < x.len() implies s[j] != c by {
        assert(s[j] == x[j]);
    }
    lemma_pos_is(s, c, x.len() as int);
    assert(s.take(x.len() as int) =~= x);
}

proof fn lemma_after_last_joined(dir: Seq<char>, x: Seq<char>, c: char)
    ensures
        after_last(dir + seq![c] + x, c) == after_last(x, c),
    decreases dir.len(),
{
    let s = dir + seq![c] + x;
    lemma_pos(dir, c);
    let i = pos(dir, c);
    assert forall|j: int| 0 <= j < i implies s[j] != c by {
        assert(s[j] == dir[j]);
    }
    lemma_pos_is(s, c, i);
    if i < dir.len() {
        lemma_after_last_joined(dir.skip(i + 1), x, c);
        assert(s.skip(i + 1) =~= dir.skip(i + 1) + seq![c] + x);
    } else {
        assert(s.skip(i + 1) =~= x);
    }
}

/// The page that a link names is told by its file name: directories before it, an anchor or a text to
/// show after it, and the extension do not count.
pub proof fn law_links_name_pages(
    dir: Seq<char>,
    x: Seq<char>,
    more: Seq<char>,
    name: Seq<char>,
)
    requires
        !x.contains('#'),
        !x.contains('|'),
        !dir.contains('#'),
        !dir.contains('|'),
        is_tidy(name),
        !name.contains('#'),
        !name.contains('|'),
        !name.contains('/'),
    ensures
        link_stem(x + seq!['#'] + more) == link_stem(x),
        link_stem(x + seq!['|'] + more) == link_stem(x),
        link_stem(dir + seq!['/'] + x) == link_stem(x),
        link_stem(name + seq!['.', 'm', 'd']) == name,
        !ends(name, seq!['.', 'm', 'd']) ==> link_stem(name) == name,
{
    reveal_strlit(".md");
    let md = seq!['.', 'm', 'd'];
    assert(".md"@ =~= md);
    lemma_before_is(x, '#', more);
    lemma_before_is(x, '|', more);
    let shown = x + seq!['|'] + more;
    law_before_and_after(shown, '#');
    let cut = before(shown, '#');
    if cut.len() <= x.len() {
        assert(shown[cut.len() as int] == '#' || cut.len() == shown.len());
        if cut.len() < x.len() {
            assert(x[cut.len() as int] == '#');
            assert(x.contains('#'));
        }
    }
    let tail = cut.skip(x.len() + 1 as int);
    assert(cut =~= x + seq!['|'] + tail);
    lemma_before_is(x, '|', tail);
    let whole = dir + seq!['/'] + x;
    assert forall|j: int| 0 <= j < whole.len() implies whole[j] != '#' && whole[j] != '|' by {
        if j < dir.len() {
            assert(dir.contains(dir[j]));
        } else if j > dir.len() {
            assert(x.contains(x[j - dir.len() - 1]));
        }
    }
    lemma_before_is(whole, '#', more);
    lemma_before_is(whole, '|', more);
    lemma_after_last_joined(dir, x, '/');
    assert forall|j: int| 0 <= j < name.len() implies name[j] != '#' && name[j] != '|' && name[j]
        != '/' by {
        assert(name.contains(name[j]));
    }
    let long = name + md;
    lemma_before_is(name, '#', more);
    lemma_before_is(name, '|', more);
    lemma_before_is(long, '#', more);
    lemma_before_is(long, '|', more);
    lemma_pos_is(name, '/', name.len() as int);
    lemma_pos_is(long, '/', long.len() as int);
    lemma_tidy(name);
    lemma_tidy(long);
    assert(long.skip(long.len() - 3) =~= md);
    assert(long.take(long.len() - 3) =~= name);
}

/// The type that a line gives, if it gives one: what follows `type:`, without white space and quotation
/// marks around it.
pub open spec fn type_on(line: Seq<char>) -> Seq<char> {
    let t = trim(line);
    if t.len() >= 5 && t[0] == 't' && t[1] == 'y' && t[2] == 'p' && t[3] == 'e' && t[4] == ':' {
        strip(strip(trim(t.skip(5)), Strip::Mark('"')), Strip::Mark('\''))
    } else {
        seq![]
    }
}

proof fn lemma_type_on(line: Seq<char>)
    ensures
        type_value(trim(line)) == (if type_on(line).len() > 0 {
            Some(type_on(line))
        } else {
            None
        }),
{
    reveal_strlit("type:");
    let t = trim(line);
    let key = "type:"@;
    assert(key =~= seq!['t', 'y', 'p', 'e', ':']);
    if t.len() >= 5 {
        if t[0] == 't' && t[1] == 'y' && t[2] == 'p' && t[3] == 'e' && t[4] == ':' {
            assert(t.take(5) =~= key);
        } else if t.take(5) == key {
            assert(t.take(5)[0] == t[0]);
            assert(t.take(5)[1] == t[1]);
            assert(t.take(5)[2] == t[2]);
            assert(t.take(5)[3] == t[3]);
            assert(t.take(5)[4] == t[4]);
        }
    }
}

proof fn lemma_first_type_at(ls: Seq<Seq<char>>, k: int)
    requires
        0 <= k <= ls.len(),
        forall|j: int|
            0 <= j < k ==> trim(#[trigger] ls[j]) != seq!['-', '-', '-'] && type_on(ls[j]).len()
                == 0,
        k < ls.len() ==> trim(ls[k]) == seq!['-', '-', '-'] || type_on(ls[k]).len() > 0,
    ensures
        first_type(ls) == (if k < ls.len() && trim(ls[k]) != seq!['-', '-', '-'] {
            Some(type_on(ls[k]))
        } else {
            None
        }),
    decreases k,
{
    reveal_strlit("---");
    assert("---"@ =~= seq!['-', '-', '-']);
    if ls.len() > 0 {
        lemma_type_on(ls[0]);
        if k > 0 {
            let rest = ls.skip(1);
            assert forall|j: int| 0 <= j < k - 1 implies trim(#[trigger] rest[j]) != seq![
                '-',
                '-',
                '-',
            ] && type_on(rest[j]).len() == 0 by {
                assert(rest[j] == ls[j + 1]);
            }
            lemma_first_type_at(rest, k - 1);
        }
    }
}

/// The type of a page is what the first line gives that gives one, between a first line of three dashes
/// and the next such line.
pub proof fn law_types_are_read_from_the_front(content: Seq<char>, k: int)
    requires
        1 <= k <= lines(content).len(),
        forall|j: int|
            1 <= j < k ==> trim(#[trigger] lines(content)[j]) != seq!['-', '-', '-'] && type_on(
                lines(content)[j],
            ).len() == 0,
        k < lines(content).len() ==> trim(lines(content)[k]) == seq!['-', '-', '-'] || type_on(
            lines(content)[k],
        ).len() > 0,
    ensures
        trim(lines(content)[0]) == seq!['-', '-', '-'] && k < lines(content).len() && trim(
            lines(content)[k],
        ) != seq!['-', '-', '-'] ==> frontmatter_type(content) == Some(type_on(lines(content)[k])),
        trim(lines(content)[0]) != seq!['-', '-', '-'] || k == lines(content).len() || trim(
            lines(content)[k],
        ) == seq!['-', '-', '-'] ==> frontmatter_type(content) is None,
{
    reveal_strlit("---");
    assert("---"@ =~= seq!['-', '-', '-']);
    let ls = lines(content);
    let rest = ls.skip(1);
    assert forall|j: int| 0 <= j < k - 1 implies trim(#[trigger] rest[j]) != seq!['-', '-', '-']
        && type_on(rest[j]).len() == 0 by {
        assert(rest[j] == ls[j + 1]);
    }
    if k < ls.len() {
        assert(rest[k - 1] == ls[k]);
    }
    lemma_first_type_at(rest, k - 1);
}

} // verus!
