//! Plain-text tools over sequences of characters.

use vstd::prelude::*;

verus! {

/// `String::push` appends the given character to the end of the text.
pub assume_specification[ String::push ](s: &mut String, c: char)
    ensures
        final(s)@ == old(s)@.push(c),
;

// ---------------------------------------------------------------------------
// Models
// ---------------------------------------------------------------------------

/// The characters with the Unicode property `White_Space`.
pub open spec fn is_space(c: char) -> bool {
    let u = c as u32;
    ||| 0x09 <= u <= 0x0d
    ||| u == 0x20
    ||| u == 0x85
    ||| u == 0xa0
    ||| u == 0x1680
    ||| 0x2000 <= u <= 0x200a
    ||| u == 0x2028
    ||| u == 0x2029
    ||| u == 0x202f
    ||| u == 0x205f
    ||| u == 0x3000
}

/// What a strip takes off the two ends of a text.
#[derive(Clone, Copy)]
pub enum Strip {
    Space,
    Mark(char),
}

impl Strip {
    pub open spec fn takes(self, c: char) -> bool {
        match self {
            Strip::Space => is_space(c),
            Strip::Mark(m) => c == m,
        }
    }
}

pub open spec fn strip_front(s: Seq<char>, k: Strip) -> Seq<char>
    decreases s.len(),
{
    if s.len() > 0 && k.takes(s[0]) {
        strip_front(s.skip(1), k)
    } else {
        s
    }
}

pub open spec fn strip_back(s: Seq<char>, k: Strip) -> Seq<char>
    decreases s.len(),
{
    if s.len() > 0 && k.takes(s[s.len() - 1]) {
        strip_back(s.take(s.len() - 1), k)
    } else {
        s
    }
}

/// `s` without the characters that `k` takes at its two ends.
pub open spec fn strip(s: Seq<char>, k: Strip) -> Seq<char> {
    strip_back(strip_front(s, k), k)
}

/// `s` without the white space at its two ends.
pub open spec fn trim(s: Seq<char>) -> Seq<char> {
    strip(s, Strip::Space)
}

/// The place of the first `c` in `s`, or the length of `s`.
pub open spec fn pos(s: Seq<char>, c: char) -> int
    decreases s.len(),
{
    if s.len() == 0 || s[0] == c {
        0
    } else {
        1 + pos(s.skip(1), c)
    }
}

/// The place of the first `cc` in `s`, or the length of `s`.
pub open spec fn pos_pair(s: Seq<char>, c: char) -> int
    decreases s.len(),
{
    if s.len() < 2 {
        s.len() as int
    } else if s[0] == c && s[1] == c {
        0
    } else {
        1 + pos_pair(s.skip(1), c)
    }
}

/// What stands in `s` before the first `c`.
pub open spec fn before(s: Seq<char>, c: char) -> Seq<char> {
    s.take(pos(s, c))
}

/// What stands in `s` after the last `c`.
pub open spec fn after_last(s: Seq<char>, c: char) -> Seq<char>
    decreases s.len(),
    via after_last_shrinks
{
    if pos(s, c) < s.len() {
        after_last(s.skip(pos(s, c) + 1), c)
    } else {
        s
    }
}

#[via_fn]
proof fn after_last_shrinks(s: Seq<char>, c: char) {
    lemma_pos(s, c);
}

/// The parts of `s` between the separators `c`.
pub open spec fn pieces(s: Seq<char>, c: char) -> Seq<Seq<char>>
    decreases s.len(),
    via pieces_shrink
{
    if pos(s, c) < s.len() {
        seq![before(s, c)] + pieces(s.skip(pos(s, c) + 1), c)
    } else {
        seq![s]
    }
}

#[via_fn]
proof fn pieces_shrink(s: Seq<char>, c: char) {
    lemma_pos(s, c);
}

/// A line without the carriage return that precedes its line feed.
pub open spec fn without_return(s: Seq<char>) -> Seq<char> {
    if s.len() > 0 && s[s.len() - 1] == '\r' {
        s.take(s.len() - 1)
    } else {
        s
    }
}

/// The lines of `s`, without their endings.
pub open spec fn lines(s: Seq<char>) -> Seq<Seq<char>>
    decreases s.len(),
    via lines_shrink
{
    if s.len() == 0 {
        seq![]
    } else if pos(s, '\n') < s.len() {
        seq![without_return(before(s, '\n'))] + lines(s.skip(pos(s, '\n') + 1))
    } else {
        seq![s]
    }
}

#[via_fn]
proof fn lines_shrink(s: Seq<char>) {
    lemma_pos(s, '\n');
}

pub open spec fn starts(s: Seq<char>, p: Seq<char>) -> bool {
    p.len() <= s.len() && s.take(p.len() as int) == p
}

pub open spec fn ends(s: Seq<char>, p: Seq<char>) -> bool {
    p.len() <= s.len() && s.skip(s.len() - p.len()) == p
}

/// `s` with every `a` replaced by `b`.
pub open spec fn replaced(s: Seq<char>, a: char, b: char) -> Seq<char> {
    Seq::new(
        s.len(),
        |i: int|
            if s[i] == a {
                b
            } else {
                s[i]
            },
    )
}

/// `parts` with `sep` between each two of them.
pub open spec fn joined(parts: Seq<Seq<char>>, sep: char) -> Seq<char>
    decreases parts.len(),
{
    if parts.len() == 0 {
        seq![]
    } else if parts.len() == 1 {
        parts[0]
    } else {
        joined(parts.drop_last(), sep).push(sep) + parts.last()
    }
}

pub open spec fn digit(d: int) -> char {
    if d == 0 {
        '0'
    } else if d == 1 {
        '1'
    } else if d == 2 {
        '2'
    } else if d == 3 {
        '3'
    } else if d == 4 {
        '4'
    } else if d == 5 {
        '5'
    } else if d == 6 {
        '6'
    } else if d == 7 {
        '7'
    } else if d == 8 {
        '8'
    } else {
        '9'
    }
}

/// `n` in decimal digits.
pub open spec fn decimal(n: nat) -> Seq<char>
    decreases n,
{
    if n < 10 {
        seq![digit(n as int)]
    } else {
        decimal(n / 10).push(digit((n % 10) as int))
    }
}

/// The texts that a list of strings holds.
pub open spec fn texts(v: Seq<String>) -> Seq<Seq<char>> {
    v.map_values(|s: String| s@)
}

// ---------------------------------------------------------------------------
// Facts
// ---------------------------------------------------------------------------

pub proof fn lemma_pos(s: Seq<char>, c: char)
    ensures
        0 <= pos(s, c) <= s.len(),
        forall|i: int| 0 <= i < pos(s, c) ==> s[i] != c,
        pos(s, c) < s.len() ==> s[pos(s, c)] == c,
    decreases s.len(),
{
    if s.len() > 0 && s[0] != c {
        lemma_pos(s.skip(1), c);
        assert forall|i: int| 0 <= i < pos(s, c) implies s[i] != c by {
            if i > 0 {
                assert(s.skip(1)[i - 1] == s[i]);
            }
        }
    }
}

pub proof fn lemma_pos_is(s: Seq<char>, c: char, n: int)
    requires
        0 <= n <= s.len(),
        forall|i: int| 0 <= i < n ==> s[i] != c,
        n < s.len() ==> s[n] == c,
    ensures
        pos(s, c) == n,
{
    lemma_pos(s, c);
}

pub proof fn lemma_pos_pair(s: Seq<char>, c: char)
    ensures
        0 <= pos_pair(s, c) <= s.len(),
        pos_pair(s, c) < s.len() ==> pos_pair(s, c) + 2 <= s.len(),
        pos_pair(s, c) < s.len() ==> s[pos_pair(s, c)] == c && s[pos_pair(s, c) + 1] == c,
    decreases s.len(),
{
    if s.len() >= 2 && !(s[0] == c && s[1] == c) {
        lemma_pos_pair(s.skip(1), c);
    }
}

pub proof fn lemma_strip_front(s: Seq<char>, k: Strip)
    ensures
        strip_front(s, k).len() <= s.len(),
        strip_front(s, k) == s.skip(s.len() - strip_front(s, k).len()),
        strip_front(s, k).len() > 0 ==> !k.takes(strip_front(s, k)[0]),
    decreases s.len(),
{
    if s.len() > 0 && k.takes(s[0]) {
        lemma_strip_front(s.skip(1), k);
        let r = strip_front(s, k);
        assert(s.skip(1).skip(s.len() - 1 - r.len()) =~= s.skip(s.len() - r.len()));
    } else {
        assert(s.skip(0) =~= s);
    }
}

pub proof fn lemma_strip_back(s: Seq<char>, k: Strip)
    ensures
        strip_back(s, k).len() <= s.len(),
        strip_back(s, k) == s.take(strip_back(s, k).len() as int),
        strip_back(s, k).len() > 0 ==> !k.takes(strip_back(s, k).last()),
    decreases s.len(),
{
    if s.len() > 0 && k.takes(s[s.len() - 1]) {
        lemma_strip_back(s.take(s.len() - 1), k);
        let r = strip_back(s, k);
        assert(s.take(s.len() - 1).take(r.len() as int) =~= s.take(r.len() as int));
    } else {
        assert(s.take(s.len() as int) =~= s);
    }
}

// ---------------------------------------------------------------------------
// Tools
// ---------------------------------------------------------------------------

impl Strip {
    pub fn removes(self, c: char) -> (b: bool)
        ensures
            b == self.takes(c),
    {
        match self {
            Strip::Space => space(c),
            Strip::Mark(m) => c == m,
        }
    }
}

pub fn space(c: char) -> (b: bool)
    ensures
        b == is_space(c),
{
    let u: u32 = c as u32;
    (0x09 <= u && u <= 0x0d) || u == 0x20 || u == 0x85 || u == 0xa0 || u == 0x1680 || (0x2000 <= u
        && u <= 0x200a) || u == 0x2028 || u == 0x2029 || u == 0x202f || u == 0x205f || u == 0x3000
}

/// The characters of a text, one by one.
pub fn chars_of(s: &str) -> (v: Vec<char>)
    ensures
        v@ == s@,
{
    let mut v: Vec<char> = Vec::new();
    for c in it: s.chars()
        invariant
            v@ == it.seq().take(it.index() as int),
            it.seq() == s@,
    {
        v.push(c);
    }
    v
}

/// The characters `from..to` as a text.
pub fn text_of(cs: &Vec<char>, from: usize, to: usize) -> (s: String)
    requires
        from <= to <= cs@.len(),
    ensures
        s@ == cs@.subrange(from as int, to as int),
{
    let mut s = String::new();
    let mut i: usize = from;
    while i < to
        invariant
            from <= i <= to <= cs@.len(),
            s@ == cs@.subrange(from as int, i as int),
        decreases to - i,
    {
        s.push(cs[i]);
        i += 1;
    }
    s
}

/// Whether two texts hold the same characters.
pub fn same(a: &str, b: &str) -> (r: bool)
    ensures
        r == (a@ == b@),
{
    a.to_owned() == b.to_owned()
}

pub fn matches_at(cs: &Vec<char>, at: usize, p: &Vec<char>) -> (r: bool)
    requires
        at + p@.len() <= cs@.len(),
    ensures
        r == (cs@.subrange(at as int, at + p@.len()) == p@),
{
    let n: usize = cs.len();
    let mut i: usize = 0;
    while i < p.len()
        invariant
            0 <= i <= p@.len(),
            at + p@.len() <= n == cs@.len(),
            forall|j: int| 0 <= j < i ==> cs@[at + j] == p@[j],
        decreases p@.len() - i,
    {
        if cs[at + i] != p[i] {
            assert(cs@.subrange(at as int, at + p@.len())[i as int] != p@[i as int]);
            return false;
        }
        i += 1;
    }
    assert(cs@.subrange(at as int, at + p@.len()) =~= p@);
    true
}

/// Whether `s` ends with `p`.
pub fn ends_with(s: &str, p: &str) -> (r: bool)
    ensures
        r == ends(s@, p@),
{
    let cs = chars_of(s);
    let ps = chars_of(p);
    if ps.len() > cs.len() {
        return false;
    }
    assert(cs@.subrange(cs@.len() - ps@.len(), cs@.len() as int) =~= s@.skip(s@.len() - p@.len()));
    matches_at(&cs, cs.len() - ps.len(), &ps)
}

/// The range of `from..to` that a strip leaves.
pub fn strip_range(cs: &Vec<char>, from: usize, to: usize, k: Strip) -> (r: (usize, usize))
    requires
        from <= to <= cs@.len(),
    ensures
        from <= r.0 <= r.1 <= to,
        cs@.subrange(r.0 as int, r.1 as int) == strip(cs@.subrange(from as int, to as int), k),
{
    let ghost whole = cs@.subrange(from as int, to as int);
    let mut a: usize = from;
    while a < to && k.removes(cs[a])
        invariant
            from <= a <= to <= cs@.len(),
            strip_front(cs@.subrange(a as int, to as int), k) == strip_front(whole, k),
        decreases to - a,
    {
        assert(cs@.subrange(a as int, to as int).skip(1) =~= cs@.subrange(a + 1, to as int));
        a += 1;
    }
    let ghost front = cs@.subrange(a as int, to as int);
    assert(strip_front(whole, k) == front);
    let mut b: usize = to;
    while a < b && k.removes(cs[b - 1])
        invariant
            from <= a <= b <= to <= cs@.len(),
            strip_back(cs@.subrange(a as int, b as int), k) == strip_back(front, k),
        decreases b - a,
    {
        assert(cs@.subrange(a as int, b as int).take(b - a - 1) =~= cs@.subrange(a as int, b - 1));
        b -= 1;
    }
    assert(strip_back(front, k) == cs@.subrange(a as int, b as int));
    (a, b)
}

/// The text without the white space at its two ends.
pub fn trimmed(s: &str) -> (r: String)
    ensures
        r@ == trim(s@),
{
    let cs = chars_of(s);
    let (a, b) = strip_range(&cs, 0, cs.len(), Strip::Space);
    assert(cs@.subrange(0, cs@.len() as int) =~= s@);
    text_of(&cs, a, b)
}

/// Whether nothing but white space stands in the text.
pub fn is_blank(s: &str) -> (b: bool)
    ensures
        b == (trim(s@).len() == 0),
{
    let t = trimmed(s);
    t.as_str().is_empty()
}

/// The place of the first `c` in `from..to`, or `to`.
pub fn find(cs: &Vec<char>, from: usize, to: usize, c: char) -> (i: usize)
    requires
        from <= to <= cs@.len(),
    ensures
        from <= i <= to,
        i - from == pos(cs@.subrange(from as int, to as int), c),
{
    let mut i: usize = from;
    while i < to && cs[i] != c
        invariant
            from <= i <= to <= cs@.len(),
            forall|j: int| from <= j < i ==> cs@[j] != c,
        decreases to - i,
    {
        i += 1;
    }
    proof {
        lemma_pos_is(cs@.subrange(from as int, to as int), c, i - from);
    }
    i
}

/// The place of the first `cc` in `from..`, or the end.
pub fn find_pair(cs: &Vec<char>, from: usize, c: char) -> (i: usize)
    requires
        from <= cs@.len(),
    ensures
        from <= i <= cs@.len(),
        i - from == pos_pair(cs@.skip(from as int), c),
        i < cs@.len() ==> i + 2 <= cs@.len(),
{
    let ghost whole = cs@.skip(from as int);
    let mut i: usize = from;
    while i < cs.len()
        invariant
            from <= i <= cs@.len(),
            whole == cs@.skip(from as int),
            i - from + pos_pair(cs@.skip(i as int), c) == pos_pair(whole, c),
        decreases cs@.len() - i,
    {
        assert(cs@.skip(i as int).skip(1) =~= cs@.skip(i + 1));
        if cs.len() - i >= 2 && cs[i] == c && cs[i + 1] == c {
            return i;
        }
        i += 1;
    }
    i
}

/// The start of what follows the last `c` in `from..to`.
pub fn find_after_last(cs: &Vec<char>, from: usize, to: usize, c: char) -> (i: usize)
    requires
        from <= to <= cs@.len(),
    ensures
        from <= i <= to,
        cs@.subrange(i as int, to as int) == after_last(cs@.subrange(from as int, to as int), c),
{
    let ghost whole = cs@.subrange(from as int, to as int);
    let mut i: usize = from;
    loop
        invariant
            from <= i <= to <= cs@.len(),
            after_last(cs@.subrange(i as int, to as int), c) == after_last(whole, c),
        ensures
            from <= i <= to,
            after_last(whole, c) == cs@.subrange(i as int, to as int),
        decreases to - i,
    {
        let j: usize = find(cs, i, to, c);
        if j >= to {
            break;
        }
        assert(cs@.subrange(i as int, to as int).skip(j - i + 1) =~= cs@.subrange(
            j + 1,
            to as int,
        ));
        i = j + 1;
    }
    i
}

/// The parts of a text between the separators.
pub fn split(s: &str, c: char) -> (v: Vec<String>)
    ensures
        texts(v@) == pieces(s@, c),
{
    let cs = chars_of(s);
    let n: usize = cs.len();
    let mut v: Vec<String> = Vec::new();
    let mut i: usize = 0;
    assert(cs@.skip(0) =~= s@);
    loop
        invariant
            cs@ == s@,
            n == cs@.len(),
            i <= n,
            texts(v@) + pieces(cs@.skip(i as int), c) == pieces(s@, c),
        ensures
            i <= n,
            texts(v@) + seq![cs@.skip(i as int)] == pieces(s@, c),
        decreases n - i,
    {
        assert(cs@.subrange(i as int, n as int) =~= cs@.skip(i as int));
        let j: usize = find(&cs, i, n, c);
        if j >= n {
            break;
        }
        let part = text_of(&cs, i, j);
        let ghost old_v = v@;
        assert(cs@.skip(i as int).skip(j - i + 1) =~= cs@.skip(j + 1));
        assert(part@ =~= before(cs@.skip(i as int), c));
        v.push(part);
        assert(texts(v@) =~= texts(old_v).push(part@));
        assert(texts(v@) + pieces(cs@.skip(j + 1), c) =~= texts(old_v) + (seq![part@] + pieces(
            cs@.skip(j + 1),
            c,
        )));
        i = j + 1;
    }
    let part = text_of(&cs, i, n);
    let ghost old_v = v@;
    v.push(part);
    assert(part@ =~= cs@.skip(i as int));
    assert(texts(v@) =~= texts(old_v) + seq![part@]);
    v
}

/// The ranges of the lines of a text, without their endings.
pub fn line_ranges(cs: &Vec<char>) -> (v: Vec<(usize, usize)>)
    ensures
        v@.len() == lines(cs@).len(),
        forall|k: int|
            0 <= k < v@.len() ==> (#[trigger] v@[k]).0 <= v@[k].1 <= cs@.len() && cs@.subrange(
                v@[k].0 as int,
                v@[k].1 as int,
            ) == lines(cs@)[k],
{
    let n: usize = cs.len();
    let mut v: Vec<(usize, usize)> = Vec::new();
    let mut i: usize = 0;
    assert(cs@.skip(0) =~= cs@);
    while i < n
        invariant
            n == cs@.len(),
            i <= n,
            lines(cs@).len() == v@.len() + lines(cs@.skip(i as int)).len(),
            forall|k: int|
                0 <= k < v@.len() ==> (#[trigger] v@[k]).0 <= v@[k].1 <= cs@.len() && cs@.subrange(
                    v@[k].0 as int,
                    v@[k].1 as int,
                ) == lines(cs@)[k],
            forall|k: int|
                v@.len() <= k < lines(cs@).len() ==> #[trigger] lines(cs@)[k] == lines(
                    cs@.skip(i as int),
                )[k - v@.len()],
        decreases n - i,
    {
        let ghost rest = cs@.skip(i as int);
        let ghost done = v@;
        assert(cs@.subrange(i as int, n as int) =~= rest);
        let j: usize = find(cs, i, n, '\n');
        if j >= n {
            v.push((i, n));
            assert(lines(rest) =~= seq![rest]);
            assert(lines(cs@)[done.len() as int] == lines(rest)[0]);
            i = n;
            assert(cs@.skip(n as int).len() == 0);
        } else {
            let stop: usize = if j > i && cs[j - 1] == '\r' {
                j - 1
            } else {
                j
            };
            assert(rest.skip(j - i + 1) =~= cs@.skip(j + 1));
            assert(before(rest, '\n') =~= cs@.subrange(i as int, j as int));
            assert(cs@.subrange(i as int, stop as int) =~= without_return(before(rest, '\n')));
            assert(lines(rest) == seq![without_return(before(rest, '\n'))] + lines(
                cs@.skip(j + 1),
            ));
            assert(lines(cs@)[done.len() as int] == lines(rest)[0]);
            v.push((i, stop));
            i = j + 1;
            assert forall|k: int| v@.len() <= k < lines(cs@).len() implies #[trigger] lines(cs@)[k]
                == lines(cs@.skip(i as int))[k - v@.len()] by {
                assert(lines(cs@)[k] == lines(rest)[k - done.len()]);
            }
        }
    }
    assert(cs@.skip(i as int).len() == 0);
    v
}

/// The text with every `a` replaced by `b`.
pub fn replace(s: &str, a: char, b: char) -> (r: String)
    ensures
        r@ == replaced(s@, a, b),
{
    let cs = chars_of(s);
    let mut r = String::new();
    let mut i: usize = 0;
    while i < cs.len()
        invariant
            cs@ == s@,
            i <= cs@.len(),
            r@.len() == i,
            forall|j: int| 0 <= j < i ==> r@[j] == replaced(s@, a, b)[j],
        decreases cs@.len() - i,
    {
        if cs[i] == a {
            r.push(b);
        } else {
            r.push(cs[i]);
        }
        i += 1;
    }
    assert(r@ =~= replaced(s@, a, b));
    r
}

/// The texts with a separator between each two of them.
pub fn join(parts: &Vec<String>, sep: char) -> (r: String)
    ensures
        r@ == joined(texts(parts@), sep),
{
    let ghost all = texts(parts@);
    let mut r = String::new();
    let mut i: usize = 0;
    assert(all.take(0) =~= seq![]);
    while i < parts.len()
        invariant
            all == texts(parts@),
            i <= parts@.len(),
            r@ == joined(all.take(i as int), sep),
        decreases parts@.len() - i,
    {
        assert(all.take(i + 1).drop_last() =~= all.take(i as int));
        assert(all.take(i + 1).last() == parts@[i as int]@);
        if i > 0 {
            r.push(sep);
        }
        r.append(parts[i].as_str());
        i += 1;
        assert(r@ =~= joined(all.take(i as int), sep));
    }
    assert(all.take(parts@.len() as int) =~= all);
    r
}

/// The first `n` characters of a text.
pub fn first_chars(s: &str, n: usize) -> (r: String)
    ensures
        r@ == (if s@.len() <= n {
            s@
        } else {
            s@.take(n as int)
        }),
{
    let cs = chars_of(s);
    let stop: usize = if cs.len() <= n {
        cs.len()
    } else {
        n
    };
    let r = text_of(&cs, 0, stop);
    assert(r@ =~= s@.take(stop as int));
    assert(s@.len() <= n ==> s@.take(stop as int) =~= s@);
    r
}

fn digit_of(d: u128) -> (c: char)
    ensures
        c == digit(d as int),
{
    if d == 0 {
        '0'
    } else if d == 1 {
        '1'
    } else if d == 2 {
        '2'
    } else if d == 3 {
        '3'
    } else if d == 4 {
        '4'
    } else if d == 5 {
        '5'
    } else if d == 6 {
        '6'
    } else if d == 7 {
        '7'
    } else if d == 8 {
        '8'
    } else {
        '9'
    }
}

/// A number in decimal digits.
pub fn number(n: u128) -> (r: String)
    ensures
        r@ == decimal(n as nat),
    decreases n,
{
    if n < 10 {
        let mut r = String::new();
        r.push(digit_of(n));
        assert(r@ =~= decimal(n as nat));
        r
    } else {
        let mut r = number(n / 10);
        r.push(digit_of(n % 10));
        r
    }
}

/// Two texts, one after the other.
pub fn cat(a: &str, b: &str) -> (r: String)
    ensures
        r@ == a@ + b@,
{
    let mut r = a.to_owned();
    r.append(b);
    r
}

/// Three texts, one after the other.
pub fn cat3(a: &str, b: &str, c: &str) -> (r: String)
    ensures
        r@ == a@ + b@ + c@,
{
    let mut r = cat(a, b);
    r.append(c);
    r
}

/// The texts of a list, copied.
pub fn copy_texts(v: &Vec<String>) -> (r: Vec<String>)
    ensures
        texts(r@) == texts(v@),
{
    let mut r: Vec<String> = Vec::new();
    let mut i: usize = 0;
    while i < v.len()
        invariant
            i <= v@.len(),
            r@.len() == i,
            forall|j: int| 0 <= j < i ==> (#[trigger] r@[j])@ == v@[j]@,
        decreases v@.len() - i,
    {
        r.push(v[i].clone());
        i += 1;
    }
    assert(texts(r@) =~= texts(v@));
    r
}

// ---------------------------------------------------------------------------
// Laws
// ---------------------------------------------------------------------------

/// White space is what Unicode calls so: these characters and no others.
pub proof fn law_white_space(c: char)
    ensures
        is_space(c) <==> c == '\t' || c == '\n' || c == '\u{b}' || c == '\u{c}' || c == '\r' || c
            == ' ' || c == '\u{85}' || c == '\u{a0}' || c == '\u{1680}' || ('\u{2000}' as int <= c as int
            <= '\u{200a}' as int) || c == '\u{2028}' || c == '\u{2029}' || c == '\u{202f}' || c
            == '\u{205f}' || c == '\u{3000}',
{
}

proof fn lemma_front_taken(s: Seq<char>, k: Strip)
    ensures
        forall|j: int| 0 <= j < s.len() - strip_front(s, k).len() ==> k.takes(#[trigger] s[j]),
    decreases s.len(),
{
    lemma_strip_front(s, k);
    if s.len() > 0 && k.takes(s[0]) {
        lemma_front_taken(s.skip(1), k);
        assert forall|j: int| 0 <= j < s.len() - strip_front(s, k).len() implies k.takes(
            #[trigger] s[j],
        ) by {
            if j > 0 {
                assert(s.skip(1)[j - 1] == s[j]);
            }
        }
    }
}

proof fn lemma_back_taken(s: Seq<char>, k: Strip)
    ensures
        forall|j: int| strip_back(s, k).len() <= j < s.len() ==> k.takes(#[trigger] s[j]),
    decreases s.len(),
{
    lemma_strip_back(s, k);
    if s.len() > 0 && k.takes(s[s.len() - 1]) {
        lemma_back_taken(s.take(s.len() - 1), k);
        assert forall|j: int| strip_back(s, k).len() <= j < s.len() implies k.takes(
            #[trigger] s[j],
        ) by {
            if j < s.len() - 1 {
                assert(s.take(s.len() - 1)[j] == s[j]);
            }
        }
    }
}

/// What stripping leaves of a text is the middle of it: everything before and after that is taken off,
/// and neither its first nor its last character would be. Trimming so takes off white space, and
/// nothing else.
pub proof fn law_stripping_leaves_the_middle(s: Seq<char>, k: Strip)
    ensures
        exists|from: int, to: int|
            0 <= from <= to <= s.len() && #[trigger] s.subrange(from, to) == strip(s, k) && (forall|
                j: int,
            |
                0 <= j < from || to <= j < s.len() ==> k.takes(#[trigger] s[j])),
        strip(s, k).len() > 0 ==> !k.takes(strip(s, k)[0]) && !k.takes(strip(s, k).last()),
        trim(s) == strip(s, Strip::Space),
        forall|c: char| #[trigger] Strip::Space.takes(c) == is_space(c),
        forall|c: char, m: char| #[trigger] Strip::Mark(m).takes(c) == (c == m),
{
    let front = strip_front(s, k);
    lemma_strip_front(s, k);
    lemma_front_taken(s, k);
    lemma_strip_back(front, k);
    lemma_back_taken(front, k);
    let t = strip(s, k);
    let from = s.len() - front.len();
    let to = from + t.len();
    assert(s.subrange(from, to) =~= t);
    assert forall|j: int| 0 <= j < from || to <= j < s.len() implies k.takes(#[trigger] s[j]) by {
        if to <= j {
            assert(front[j - from] == s[j]);
        }
    }
    if t.len() > 0 {
        assert(t[0] == front[0]);
    }
}

/// The first pair is found where two equal characters stand for the first time.
pub proof fn law_first_pairs(s: Seq<char>, c: char, j: int)
    ensures
        0 <= pos_pair(s, c) <= s.len(),
        0 <= j < pos_pair(s, c) && j + 1 < s.len() ==> !(s[j] == c && s[j + 1] == c),
        pos_pair(s, c) < s.len() ==> pos_pair(s, c) + 1 < s.len() && s[pos_pair(s, c)] == c
            && s[pos_pair(s, c) + 1] == c,
    decreases s.len(),
{
    lemma_pos_pair(s, c);
    if s.len() >= 2 && !(s[0] == c && s[1] == c) {
        law_first_pairs(s.skip(1), c, j - 1);
    }
}

/// What stands before the first separator, and after the last one: pieces of the text without the
/// separator, at its beginning and at its end, and all of it where there is none.
pub proof fn law_before_and_after(s: Seq<char>, c: char)
    ensures
        ({
            let a = before(s, c);
            &&& a.len() <= s.len()
            &&& a == s.take(a.len() as int)
            &&& !a.contains(c)
            &&& a.len() < s.len() ==> s[a.len() as int] == c
        }),
        ({
            let b = after_last(s, c);
            &&& b.len() <= s.len()
            &&& b == s.skip(s.len() - b.len())
            &&& !b.contains(c)
            &&& b.len() < s.len() ==> s[s.len() - b.len() - 1] == c
        }),
    decreases s.len(),
{
    lemma_pos(s, c);
    let i = pos(s, c);
    let a = before(s, c);
    assert forall|j: int| 0 <= j < a.len() implies a[j] != c by {
        assert(a[j] == s[j]);
    }
    if i < s.len() {
        let rest = s.skip(i + 1);
        law_before_and_after(rest, c);
        let b = after_last(s, c);
        assert(rest.skip(rest.len() - b.len()) =~= s.skip(s.len() - b.len()));
    } else {
        assert(s.skip(0) =~= s);
        assert forall|j: int| 0 <= j < s.len() implies s[j] != c by {}
    }
}

proof fn lemma_joined_front(first: Seq<char>, rest: Seq<Seq<char>>, sep: char)
    requires
        rest.len() > 0,
    ensures
        joined(seq![first] + rest, sep) == first.push(sep) + joined(rest, sep),
    decreases rest.len(),
{
    let all = seq![first] + rest;
    assert(all.last() == rest.last());
    if rest.len() == 1 {
        assert(all.drop_last() =~= seq![first]);
        assert(joined(all.drop_last(), sep) == first);
        assert(joined(all, sep) =~= first.push(sep) + joined(rest, sep));
    } else {
        assert(all.drop_last() =~= seq![first] + rest.drop_last());
        lemma_joined_front(first, rest.drop_last(), sep);
        assert(joined(all, sep) =~= first.push(sep) + joined(rest, sep));
    }
}

/// A text is its pieces with the separator between each two of them, and no piece holds the separator.
pub proof fn law_pieces_make_the_text(s: Seq<char>, c: char)
    ensures
        pieces(s, c).len() > 0,
        joined(pieces(s, c), c) == s,
        forall|i: int| 0 <= i < pieces(s, c).len() ==> !(#[trigger] pieces(s, c)[i]).contains(c),
    decreases s.len(),
{
    lemma_pos(s, c);
    law_before_and_after(s, c);
    let i = pos(s, c);
    if i < s.len() {
        let rest = s.skip(i + 1);
        law_pieces_make_the_text(rest, c);
        lemma_joined_front(before(s, c), pieces(rest, c), c);
        assert(joined(pieces(s, c), c) =~= s);
        assert forall|k: int| 0 <= k < pieces(s, c).len() implies !(
        #[trigger] pieces(s, c)[k]).contains(c) by {
            if k > 0 {
                assert(pieces(s, c)[k] == pieces(rest, c)[k - 1]);
            }
        }
    } else {
        assert(before(s, c) =~= s);
    }
}

/// Parts that do not hold the separator are the pieces of what they are joined to.
pub proof fn law_parts_are_the_pieces(parts: Seq<Seq<char>>, c: char)
    requires
        parts.len() > 0,
        forall|i: int| 0 <= i < parts.len() ==> !(#[trigger] parts[i]).contains(c),
    ensures
        pieces(joined(parts, c), c) == parts,
    decreases parts.len(),
{
    let first = parts[0];
    let s = joined(parts, c);
    assert(!first.contains(c));
    assert forall|j: int| 0 <= j < first.len() implies first[j] != c by {
        assert(first.contains(first[j]));
    }
    if parts.len() == 1 {
        lemma_pos_is(s, c, s.len() as int);
        assert(parts =~= seq![s]);
    } else {
        let rest = parts.skip(1);
        assert(parts =~= seq![first] + rest);
        lemma_joined_front(first, rest, c);
        assert forall|i: int| 0 <= i < rest.len() implies !(#[trigger] rest[i]).contains(c) by {
            assert(rest[i] == parts[i + 1]);
        }
        law_parts_are_the_pieces(rest, c);
        let n = first.len() as int;
        assert forall|j: int| 0 <= j < n implies s[j] != c by {
            assert(s[j] == first[j]);
        }
        lemma_pos_is(s, c, n);
        assert(s.skip(n + 1) =~= joined(rest, c));
        assert(before(s, c) =~= first);
    }
}

/// A text is read line by line: each line ends at its line feed, of which it holds nothing, nor of a
/// carriage return right before it; the last line may have no ending.
pub proof fn law_lines(line: Seq<char>, rest: Seq<char>)
    requires
        !line.contains('\n'),
    ensures
        lines(seq![]) == Seq::<Seq<char>>::empty(),
        line.len() > 0 ==> lines(line) == seq![line],
        line.len() == 0 || line.last() != '\r' ==> lines(line + seq!['\n'] + rest) == seq![line]
            + lines(rest),
        lines(line + seq!['\r', '\n'] + rest) == seq![line] + lines(rest),
{
    assert forall|j: int| 0 <= j < line.len() implies line[j] != '\n' by {
        assert(line.contains(line[j]));
    }
    lemma_pos_is(line, '\n', line.len() as int);
    let a = line + seq!['\n'] + rest;
    let n = line.len() as int;
    lemma_pos_is(a, '\n', n);
    assert(before(a, '\n') =~= line);
    assert(a.skip(n + 1) =~= rest);
    let b = line + seq!['\r', '\n'] + rest;
    lemma_pos_is(b, '\n', n + 1);
    assert(before(b, '\n') =~= line.push('\r'));
    assert(line.push('\r').take(n) =~= line);
    assert(b.skip(n + 2) =~= rest);
}

/// A text starts and ends with what it is put together from.
pub proof fn law_starts_and_ends(s: Seq<char>, a: Seq<char>, b: Seq<char>)
    ensures
        starts(a + b, a),
        ends(a + b, b),
        starts(s, a) ==> s == a + s.skip(a.len() as int),
        ends(s, b) ==> s == s.take(s.len() - b.len()) + b,
{
    assert((a + b).take(a.len() as int) =~= a);
    assert((a + b).skip(a.len() as int) =~= b);
    if starts(s, a) {
        assert(s =~= s.take(a.len() as int) + s.skip(a.len() as int));
    }
    if ends(s, b) {
        assert(s =~= s.take(s.len() - b.len()) + s.skip(s.len() - b.len()));
    }
}

/// Replacing a character changes that character wherever it stands, and nothing else.
pub proof fn law_replacing_changes_one_character(s: Seq<char>, a: char, b: char, i: int)
    ensures
        replaced(s, a, b).len() == s.len(),
        0 <= i < s.len() && s[i] == a ==> replaced(s, a, b)[i] == b,
        0 <= i < s.len() && s[i] != a ==> replaced(s, a, b)[i] == s[i],
{
}

/// The number that a row of decimal digits stands for.
pub open spec fn read_number(s: Seq<char>) -> int
    decreases s.len(),
{
    if s.len() == 0 {
        0
    } else {
        read_number(s.drop_last()) * 10 + (s.last() as int - '0' as int)
    }
}

/// A number is written in decimal digits that stand for it, without leading zeros.
pub proof fn law_numbers_read_back(n: nat)
    ensures
        read_number(decimal(n)) == n,
        decimal(n).len() > 0,
        forall|i: int|
            0 <= i < decimal(n).len() ==> '0' as int <= (#[trigger] decimal(n)[i]) as int
                <= '9' as int,
        n > 0 ==> decimal(n)[0] != '0',
    decreases n,
{
    if n < 10 {
        let s = decimal(n);
        assert(s.drop_last() =~= seq![]);
        reveal_with_fuel(read_number, 2);
        assert(s.last() as int - '0' as int == n);
    } else {
        law_numbers_read_back(n / 10);
        let less = decimal(n / 10);
        let s = decimal(n);
        assert(s.drop_last() =~= less);
        assert(s.last() == digit((n % 10) as int));
        assert(s.last() as int - '0' as int == n % 10);
        assert forall|i: int| 0 <= i < s.len() implies '0' as int <= (#[trigger] s[i]) as int
            <= '9' as int by {
            if i < less.len() {
                assert(s[i] == less[i]);
            }
        }
        assert(s[0] == less[0]);
    }
}

/// The texts of a list are its texts, one by one.
pub proof fn law_texts_one_by_one(v: Seq<String>, i: int)
    ensures
        texts(v).len() == v.len(),
        0 <= i < v.len() ==> texts(v)[i] == v[i]@,
{
}

} // verus!
