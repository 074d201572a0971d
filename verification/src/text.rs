//! Text as a sequence of characters: trimming, splitting, joining, comparing.

use vstd::prelude::*;

verus! {

/// What can be stripped off the two ends of a text.
#[derive(Clone, Copy)]
pub enum Margin {
    /// Unicode white space.
    WhiteSpace,
    /// The double quote.
    Quote,
}

/// The characters with the Unicode property `White_Space`.
pub open spec fn white_space(c: char) -> bool {
    let n = c as u32;
    ||| 0x9 <= n <= 0xd
    ||| n == 0x20
    ||| n == 0x85
    ||| n == 0xa0
    ||| n == 0x1680
    ||| 0x2000 <= n <= 0x200a
    ||| n == 0x2028
    ||| n == 0x2029
    ||| n == 0x202f
    ||| n == 0x205f
    ||| n == 0x3000
}

/// Whether `c` belongs to the margin `m`.
pub open spec fn in_margin(c: char, m: Margin) -> bool {
    match m {
        Margin::WhiteSpace => white_space(c),
        Margin::Quote => c == '"',
    }
}

/// `s` without the margin at its front.
pub open spec fn strip_front(s: Seq<char>, m: Margin) -> Seq<char>
    decreases s.len(),
{
    if s.len() > 0 && in_margin(s[0], m) {
        strip_front(s.drop_first(), m)
    } else {
        s
    }
}

/// `s` without the margin at its back.
pub open spec fn strip_back(s: Seq<char>, m: Margin) -> Seq<char>
    decreases s.len(),
{
    if s.len() > 0 && in_margin(s.last(), m) {
        strip_back(s.drop_last(), m)
    } else {
        s
    }
}

/// `s` without the margin at either end.
pub open spec fn stripped(s: Seq<char>, m: Margin) -> Seq<char> {
    strip_back(strip_front(s, m), m)
}

/// `s` without the white space at either end.
pub open spec fn trimmed(s: Seq<char>) -> Seq<char> {
    stripped(s, Margin::WhiteSpace)
}

/// Where `c` first stands in `s`, or the length of `s` if it does not occur.
pub open spec fn position(s: Seq<char>, c: char) -> nat
    decreases s.len(),
{
    if s.len() == 0 || s[0] == c {
        0
    } else {
        1 + position(s.drop_first(), c)
    }
}

/// Whether `s` begins with `prefix`.
pub open spec fn begins_with(s: Seq<char>, prefix: Seq<char>) -> bool {
    prefix.len() <= s.len() && s.subrange(0, prefix.len() as int) == prefix
}

/// A line without the carriage return of its line ending.
pub open spec fn without_carriage_return(line: Seq<char>) -> Seq<char> {
    if line.len() > 0 && line.last() == '\r' {
        line.drop_last()
    } else {
        line
    }
}

/// The lines of a text. A line ends at a line feed or at a carriage return
/// followed by one; the last line need not have an ending.
pub open spec fn lines_of(s: Seq<char>) -> Seq<Seq<char>>
    decreases s.len(),
{
    let p = position(s, '\n') as int;
    if s.len() == 0 {
        seq![]
    } else if p < s.len() {
        seq![without_carriage_return(s.subrange(0, p))] + lines_of(
            s.subrange(p + 1, s.len() as int),
        )
    } else {
        seq![s]
    }
}

/// The parts in order, with `separator` between each two.
pub open spec fn joined(parts: Seq<Seq<char>>, separator: Seq<char>) -> Seq<char>
    decreases parts.len(),
{
    if parts.len() == 0 {
        seq![]
    } else if parts.len() == 1 {
        parts[0]
    } else {
        parts[0] + separator + joined(parts.drop_first(), separator)
    }
}

/// The texts of a vector of strings.
pub open spec fn texts(v: Seq<String>) -> Seq<Seq<char>> {
    Seq::new(v.len(), |i: int| v[i]@)
}

/// The text of an optional string.
pub open spec fn option_text(s: Option<String>) -> Option<Seq<char>> {
    match s {
        Some(s) => Some(s@),
        None => None,
    }
}

/// The texts of a vector of pairs of strings.
pub open spec fn text_pairs(v: Seq<(String, String)>) -> Seq<(Seq<char>, Seq<char>)> {
    Seq::new(v.len(), |i: int| (v[i].0@, v[i].1@))
}

/// The characters of `s`.
pub fn characters(s: &str) -> (r: Vec<char>)
    ensures
        r@ == s@,
{
    let mut r: Vec<char> = Vec::new();
    for c in it: s.chars()
        invariant
            it.seq() == s@,
            r@ == s@.take(it.index() as int),
    {
        r.push(c);
    }
    assert(s@.take(s@.len() as int) =~= s@);
    r
}

/// Whether `c` has the Unicode property `White_Space`.
pub fn is_white_space(c: char) -> (r: bool)
    ensures
        r == white_space(c),
{
    let n: u32 = c as u32;
    (0x9 <= n && n <= 0xd) || n == 0x20 || n == 0x85 || n == 0xa0 || n == 0x1680 || (0x2000 <= n
        && n <= 0x200a) || n == 0x2028 || n == 0x2029 || n == 0x202f || n == 0x205f || n == 0x3000
}

fn is_in_margin(c: char, m: Margin) -> (r: bool)
    ensures
        r == in_margin(c, m),
{
    match m {
        Margin::WhiteSpace => is_white_space(c),
        Margin::Quote => c == '"',
    }
}

/// `s` without the margin at either end.
pub fn strip(s: &str, m: Margin) -> (r: &str)
    ensures
        r@ == stripped(s@, m),
{
    let chars = characters(s);
    let mut a: usize = 0;
    let mut b: usize = chars.len();
    assert(chars@.subrange(0, chars@.len() as int) =~= s@);
    while a < b && is_in_margin(chars[a], m)
        invariant
            a <= b,
            b == chars.len(),
            chars@ == s@,
            strip_front(s@, m) == strip_front(chars@.subrange(a as int, b as int), m),
        decreases b - a,
    {
        assert(chars@.subrange(a as int, b as int).drop_first() =~= chars@.subrange(
            a + 1,
            b as int,
        ));
        a += 1;
    }
    assert(strip_front(s@, m) == chars@.subrange(a as int, b as int));
    while a < b && is_in_margin(chars[b - 1], m)
        invariant
            a <= b <= chars.len(),
            chars@ == s@,
            stripped(s@, m) == strip_back(chars@.subrange(a as int, b as int), m),
        decreases b - a,
    {
        assert(chars@.subrange(a as int, b as int).drop_last() =~= chars@.subrange(
            a as int,
            b - 1,
        ));
        b -= 1;
    }
    s.substring_char(a, b)
}

/// `s` without the white space at either end.
pub fn trim(s: &str) -> (r: &str)
    ensures
        r@ == trimmed(s@),
{
    strip(s, Margin::WhiteSpace)
}

/// Whether `a` and `b` are the same text.
pub fn same(a: &str, b: &str) -> (r: bool)
    ensures
        r == (a@ == b@),
{
    let x = characters(a);
    let y = characters(b);
    if x.len() != y.len() {
        return false;
    }
    let mut i: usize = 0;
    while i < x.len()
        invariant
            i <= x.len(),
            x.len() == y.len(),
            x@ == a@,
            y@ == b@,
            forall|j: int| 0 <= j < i ==> x@[j] == y@[j],
        decreases x.len() - i,
    {
        if x[i] != y[i] {
            return false;
        }
        i += 1;
    }
    assert(a@ =~= b@);
    true
}

/// Whether `s` begins with `prefix`.
pub fn starts_with(s: &str, prefix: &str) -> (r: bool)
    ensures
        r == begins_with(s@, prefix@),
{
    let n = prefix.unicode_len();
    if s.unicode_len() < n {
        return false;
    }
    same(s.substring_char(0, n), prefix)
}

/// What the position of a character amounts to: the character stands there, if
/// anywhere, and not before.
pub proof fn lemma_position(s: Seq<char>, c: char)
    ensures
        position(s, c) <= s.len(),
        position(s, c) < s.len() ==> s[position(s, c) as int] == c,
        forall|i: int| 0 <= i < position(s, c) ==> s[i] != c,
    decreases s.len(),
{
    if s.len() > 0 && s[0] != c {
        lemma_position(s.drop_first(), c);
        assert forall|i: int| 0 <= i < position(s, c) implies s[i] != c by {
            if i > 0 {
                assert(s.drop_first()[i - 1] == s[i]);
            }
        }
    }
}

/// A place before which `c` does not occur, and at which it does or the text
/// ends, is the position of `c`.
pub proof fn lemma_position_is(s: Seq<char>, c: char, p: int)
    requires
        0 <= p <= s.len(),
        forall|i: int| 0 <= i < p ==> s[i] != c,
        p == s.len() || s[p] == c,
    ensures
        position(s, c) == p,
{
    lemma_position(s, c);
    let q = position(s, c) as int;
    if p < q {
        assert(s[p] != c);
    }
    if q < p {
        assert(s[q] != c);
    }
}

/// The position of `c` in `s`.
pub fn find(s: &str, c: char) -> (r: usize)
    ensures
        r == position(s@, c),
{
    let chars = characters(s);
    let mut i: usize = 0;
    while i < chars.len() && chars[i] != c
        invariant
            i <= chars.len(),
            chars@ == s@,
            forall|j: int| 0 <= j < i ==> chars@[j] != c,
        decreases chars.len() - i,
    {
        i += 1;
    }
    proof {
        lemma_position_is(s@, c, i as int);
    }
    i
}

/// `a` followed by `b`.
pub fn concat2(a: &str, b: &str) -> (r: String)
    ensures
        r@ == a@ + b@,
{
    let mut r = a.to_owned();
    r.append(b);
    r
}

proof fn lemma_texts_push(v: Seq<String>, s: String)
    ensures
        texts(v.push(s)) == texts(v).push(s@),
{
    assert(texts(v.push(s)) =~= texts(v).push(s@));
}

/// The lines of `s`.
pub fn lines(s: &str) -> (r: Vec<String>)
    ensures
        texts(r@) == lines_of(s@),
{
    let mut r: Vec<String> = Vec::new();
    let n = s.unicode_len();
    let mut a: usize = 0;
    assert(s@.subrange(0, n as int) =~= s@);
    assert(texts(r@) + lines_of(s@) =~= lines_of(s@));
    while a < n
        invariant
            a <= n,
            n == s@.len(),
            lines_of(s@) == texts(r@) + lines_of(s@.subrange(a as int, n as int)),
        decreases n - a,
    {
        let rest = s.substring_char(a, n);
        let p = find(rest, '\n');
        proof {
            lemma_position(rest@, '\n');
        }
        let ghost before = r@;
        if p < n - a {
            let line = rest.substring_char(0, p);
            let kept = if p > 0 && rest.get_char(p - 1) == '\r' {
                assert(rest@.subrange(0, p - 1) =~= line@.drop_last());
                rest.substring_char(0, p - 1)
            } else {
                line
            };
            r.push(kept.to_owned());
            proof {
                lemma_texts_push(before, r@.last());
                let tail = s@.subrange(a + p + 1, n as int);
                assert(rest@.subrange(p + 1, rest@.len() as int) =~= tail);
                assert(texts(before) + (seq![kept@] + lines_of(tail)) =~= texts(before).push(kept@)
                    + lines_of(tail));
            }
            a = a + p + 1;
        } else {
            r.push(rest.to_owned());
            proof {
                lemma_texts_push(before, r@.last());
                assert(s@.subrange(n as int, n as int) =~= seq![]);
                assert(texts(before) + seq![rest@] =~= texts(before).push(rest@) + lines_of(
                    seq![],
                ));
            }
            a = n;
        }
    }
    assert(s@.subrange(n as int, n as int) =~= seq![]);
    assert(texts(r@) + lines_of(seq![]) =~= texts(r@));
    r
}

/// Appending a part to a non-empty list puts the separator and the part behind
/// what was joined before.
pub proof fn lemma_joined_push(parts: Seq<Seq<char>>, part: Seq<char>, separator: Seq<char>)
    ensures
        parts.len() == 0 ==> joined(parts.push(part), separator) == part,
        parts.len() > 0 ==> joined(parts.push(part), separator) == joined(parts, separator)
            + separator + part,
    decreases parts.len(),
{
    if parts.len() > 0 {
        lemma_joined_push(parts.drop_first(), part, separator);
        assert(parts.push(part).drop_first() =~= parts.drop_first().push(part));
        if parts.len() == 1 {
            assert(parts.drop_first() =~= seq![]);
        } else {
            let mid = joined(parts.drop_first(), separator);
            assert(parts[0] + separator + (mid + separator + part) =~= (parts[0] + separator + mid)
                + separator + part);
        }
    }
}

/// The strings in order, with `separator` between each two.
pub fn join(parts: &Vec<String>, separator: &str) -> (r: String)
    ensures
        r@ == joined(texts(parts@), separator@),
{
    let mut r = String::new();
    let mut i: usize = 0;
    assert(texts(parts@).take(0) =~= seq![]);
    while i < parts.len()
        invariant
            i <= parts.len(),
            r@ == joined(texts(parts@).take(i as int), separator@),
        decreases parts.len() - i,
    {
        proof {
            lemma_joined_push(texts(parts@).take(i as int), parts@[i as int]@, separator@);
            assert(texts(parts@).take(i as int).push(parts@[i as int]@) =~= texts(parts@).take(
                i + 1,
            ));
        }
        if i > 0 {
            r.append(separator);
        }
        r.append(parts[i].as_str());
        assert(i == 0 ==> r@ =~= parts@[0]@);
        i += 1;
    }
    assert(texts(parts@).take(parts@.len() as int) =~= texts(parts@));
    r
}

} // verus!
