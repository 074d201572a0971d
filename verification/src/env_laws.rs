//! What holds of the `.env` file: real environment variables win, what is
//! written is what is loaded, and the rest of the file stays.

use crate::env_file;
use crate::json;
use crate::text;
use crate::text_laws;
use vstd::prelude::*;

verus! {

/// The value of the first entry for `key`.
pub open spec fn lookup(entries: Seq<(Seq<char>, Seq<char>)>, key: Seq<char>) -> Option<Seq<char>>
    decreases entries.len(),
{
    if entries.len() == 0 {
        None
    } else if entries[0].0 == key {
        Some(entries[0].1)
    } else {
        lookup(entries.drop_first(), key)
    }
}

/// The value of the last pair for `key`.
pub open spec fn last_value(pairs: Seq<(Seq<char>, Seq<char>)>, key: Seq<char>) -> Option<Seq<char>>
    decreases pairs.len(),
{
    if pairs.len() == 0 {
        None
    } else if pairs.last().0 == key {
        Some(pairs.last().1)
    } else {
        last_value(pairs.drop_last(), key)
    }
}

/// Whether a text fits on one line.
pub open spec fn one_line(s: Seq<char>) -> bool {
    !s.contains('\n')
}

/// Whether a text fits on one line, but for white space at its end.
pub open spec fn on_one_line(s: Seq<char>) -> bool {
    one_line(text::strip_back(s, text::Margin::WhiteSpace))
}

/// Whether a pair can be told apart in a file: the key is not empty, has no
/// white space around it and no `=` in it and does not begin a comment, and
/// neither key nor value runs over a line, but for white space at the end.
pub open spec fn storable(pair: (Seq<char>, Seq<char>)) -> bool {
    &&& pair.0.len() > 0
    &&& text::trimmed(pair.0) == pair.0
    &&& !pair.0.contains('=')
    &&& pair.0[0] != '#'
    &&& one_line(pair.0)
    &&& on_one_line(pair.1)
}

/// Whether every pair can be told apart in a file.
pub open spec fn all_storable(pairs: Seq<(Seq<char>, Seq<char>)>) -> bool {
    forall|i: int| 0 <= i < pairs.len() ==> storable(#[trigger] pairs[i])
}

/// What a stored value is loaded as: white space and quotes around it are
/// dropped, and a JSON array is one item per line.
pub open spec fn loaded(value: Seq<char>) -> Seq<char> {
    let bare = text::stripped(text::trimmed(value), text::Margin::Quote);
    env_file::expanded(bare, json::json_items(bare))
}

/// Whether the first line whose entry is for `key`, if there is one, sets it
/// with nothing between key and `=`.
pub open spec fn tidy(lines: Seq<Seq<char>>, key: Seq<char>) -> bool
    decreases lines.len(),
{
    if lines.len() == 0 {
        true
    } else if env_file::entry_of(lines[0]) matches Some(e) && e.0 == key {
        env_file::sets(lines[0], key)
    } else {
        tidy(lines.drop_first(), key)
    }
}

proof fn lemma_strip_lengths(s: Seq<char>, m: text::Margin)
    ensures
        text::strip_front(s, m).len() <= s.len(),
        text::strip_back(s, m).len() <= s.len(),
        s.len() > 0 && text::in_margin(s[0], m) ==> text::strip_front(s, m).len() < s.len(),
        s.len() > 0 && text::in_margin(s.last(), m) ==> text::strip_back(s, m).len() < s.len(),
    decreases s.len(),
{
    if s.len() > 0 {
        lemma_strip_lengths(s.drop_first(), m);
        lemma_strip_lengths(s.drop_last(), m);
    }
}

/// A text that trimming leaves alone has no white space at its ends.
proof fn lemma_trimmed_ends(s: Seq<char>)
    requires
        text::trimmed(s) == s,
        s.len() > 0,
    ensures
        !text::white_space(s[0]),
        !text::white_space(s.last()),
{
    let m = text::Margin::WhiteSpace;
    lemma_strip_lengths(s, m);
    lemma_strip_lengths(text::strip_front(s, m), m);
}

proof fn lemma_strip_front_push(s: Seq<char>, c: char, m: text::Margin)
    requires
        text::in_margin(c, m),
    ensures
        text::strip_front(s.push(c), m) == text::strip_front(s, m).push(c) || (
        text::strip_front(s.push(c), m).len() == 0 && text::strip_front(s, m).len() == 0),
    decreases s.len(),
{
    if s.len() == 0 {
        assert(s.push(c).drop_first() =~= seq![]);
        assert(text::strip_front(s.push(c).drop_first(), m).len() == 0);
    } else {
        assert(s.push(c).drop_first() =~= s.drop_first().push(c));
        lemma_strip_front_push(s.drop_first(), c, m);
    }
}

/// White space at the end does not change what trimming leaves.
proof fn lemma_trimmed_push(s: Seq<char>, c: char)
    requires
        text::white_space(c),
    ensures
        text::trimmed(s.push(c)) == text::trimmed(s),
{
    let m = text::Margin::WhiteSpace;
    lemma_strip_front_push(s, c, m);
    let f = text::strip_front(s, m);
    if text::strip_front(s.push(c), m) == f.push(c) {
        assert(f.push(c).drop_last() =~= f);
    } else {
        assert(text::strip_front(s.push(c), m) =~= f);
    }
}

proof fn lemma_trimmed_strip_back(s: Seq<char>)
    ensures
        text::trimmed(text::strip_back(s, text::Margin::WhiteSpace)) == text::trimmed(s),
    decreases s.len(),
{
    if s.len() > 0 && text::white_space(s.last()) {
        lemma_trimmed_strip_back(s.drop_last());
        assert(s.drop_last().push(s.last()) =~= s);
        lemma_trimmed_push(s.drop_last(), s.last());
    }
}

proof fn lemma_strip_back_behind(a: Seq<char>, b: Seq<char>, m: text::Margin)
    requires
        a.len() > 0,
        !text::in_margin(a.last(), m),
    ensures
        text::strip_back(a + b, m) == a + text::strip_back(b, m),
    decreases b.len(),
{
    if b.len() == 0 {
        assert(a + b =~= a);
        assert(a + text::strip_back(b, m) =~= a);
    } else {
        assert((a + b).last() == b.last());
        assert((a + b).drop_last() =~= a + b.drop_last());
        lemma_strip_back_behind(a, b.drop_last(), m);
    }
}

/// What stripping white space off the end leaves: the front of the text, up to
/// the last character that is none.
proof fn lemma_strip_back_parts(s: Seq<char>)
    ensures
        ({
            let b = text::strip_back(s, text::Margin::WhiteSpace);
            &&& b.len() <= s.len()
            &&& b == s.take(b.len() as int)
            &&& forall|i: int| b.len() <= i < s.len() ==> text::white_space(#[trigger] s[i])
            &&& b.len() > 0 ==> !text::white_space(b.last())
        }),
    decreases s.len(),
{
    let b = text::strip_back(s, text::Margin::WhiteSpace);
    if s.len() > 0 && text::white_space(s.last()) {
        let t = s.drop_last();
        lemma_strip_back_parts(t);
        assert(t.take(b.len() as int) =~= s.take(b.len() as int));
        assert forall|i: int| b.len() <= i < s.len() implies text::white_space(
            #[trigger] s[i],
        ) by {
            if i < t.len() {
                assert(t[i] == s[i]);
            }
        }
    } else {
        assert(s.take(s.len() as int) =~= s);
    }
}

/// White space behind a text does not change what trimming leaves.
proof fn lemma_trimmed_behind(s: Seq<char>, w: Seq<char>)
    requires
        forall|i: int| 0 <= i < w.len() ==> text::white_space(#[trigger] w[i]),
    ensures
        text::trimmed(s + w) == text::trimmed(s),
    decreases w.len(),
{
    if w.len() == 0 {
        assert(s + w =~= s);
    } else {
        lemma_trimmed_behind(s, w.drop_last());
        lemma_trimmed_push(s + w.drop_last(), w.last());
        assert((s + w.drop_last()).push(w.last()) =~= s + w);
    }
}

/// A carriage return at the end of a line does not change its entry.
proof fn lemma_entry_carriage_return(line: Seq<char>)
    ensures
        env_file::entry_of(text::without_carriage_return(line)) == env_file::entry_of(line),
{
    if line.len() > 0 && line.last() == '\r' {
        assert(line.drop_last().push('\r') =~= line);
        lemma_trimmed_push(line.drop_last(), '\r');
    }
}

/// The line of a storable pair is its entry, and sets its key.
proof fn lemma_line_for(key: Seq<char>, value: Seq<char>)
    requires
        storable((key, value)),
    ensures
        env_file::entry_of(env_file::line_for(key, value)) == Some((key, loaded(value))),
        env_file::sets(env_file::line_for(key, value), key),
{
    let m = text::Margin::WhiteSpace;
    let line = env_file::line_for(key, value);
    let head = key + seq!['='];
    lemma_trimmed_ends(key);
    assert(line[0] == key[0]);
    assert(text::strip_front(line, m) == line);
    assert(head.last() == '=');
    lemma_strip_back_behind(head, value, m);
    let back = text::strip_back(value, m);
    let t = text::trimmed(line);
    assert(t == head + back);
    assert(t[0] == key[0]);
    assert(t.subrange(0, head.len() as int) =~= head);
    assert forall|i: int| 0 <= i < key.len() implies t[i] != '=' by {
        assert(t[i] == key[i]);
    }
    assert(t[key.len() as int] == '=');
    text::lemma_position_is(t, '=', key.len() as int);
    assert(t.subrange(0, key.len() as int) =~= key);
    assert(t.subrange(key.len() as int + 1, t.len() as int) =~= back);
    lemma_trimmed_strip_back(value);
}

/// A line that sets a storable key has its entry for that key.
proof fn lemma_sets_entry(line: Seq<char>, key: Seq<char>)
    requires
        storable((key, seq![])),
        env_file::sets(line, key),
    ensures
        env_file::entry_of(line) matches Some(e) && e.0 == key,
{
    let t = text::trimmed(line);
    let head = key + seq!['='];
    let start = t.subrange(0, head.len() as int);
    assert forall|i: int| 0 <= i <= key.len() implies t[i] == head[i] by {
        assert(start[i] == t[i]);
    }
    assert forall|i: int| 0 <= i < key.len() implies t[i] != '=' by {
        assert(t[i] == key[i]);
    }
    assert(t[0] == key[0]);
    text::lemma_position_is(t, '=', key.len() as int);
    assert(t.subrange(0, key.len() as int) =~= key);
}

/// A line feed ends a line that has none in it.
proof fn lemma_first_line(line: Seq<char>, rest: Seq<char>)
    requires
        one_line(line),
    ensures
        text::lines_of(line + seq!['\n'] + rest) == seq![text::without_carriage_return(line)]
            + text::lines_of(rest),
{
    let s = line + seq!['\n'] + rest;
    let n = line.len() as int;
    assert forall|i: int| 0 <= i < n implies s[i] != '\n' by {
        assert(s[i] == line[i]);
        assert(line.contains(line[i]));
    }
    text::lemma_position_is(s, '\n', n);
    assert(s.subrange(0, n) =~= line);
    assert(s.subrange(n + 1, s.len() as int) =~= rest);
}

/// A text without line feeds is its own only line, unless it is empty.
proof fn lemma_only_line(line: Seq<char>)
    requires
        one_line(line),
    ensures
        env_file::entries_of(text::lines_of(line)) == env_file::entries_of(seq![line]),
{
    assert forall|i: int| 0 <= i < line.len() implies line[i] != '\n' by {
        assert(line.contains(line[i]));
    }
    text::lemma_position_is(line, '\n', line.len() as int);
    assert(seq![line].drop_first() =~= seq![]);
    if line.len() == 0 {
        assert(text::trimmed(line).len() == 0);
    }
}

proof fn lemma_entries_first(line: Seq<char>, rest: Seq<Seq<char>>)
    ensures
        env_file::entries_of(seq![line] + rest) == (match env_file::entry_of(line) {
            Some(e) => seq![e] + env_file::entries_of(rest),
            None => env_file::entries_of(rest),
        }),
{
    assert((seq![line] + rest)[0] == line);
    assert((seq![line] + rest).drop_first() =~= rest);
}

/// A line ends where its entry ends, whatever white space is behind that.
proof fn lemma_line_entries(line: Seq<char>, rest: Seq<char>)
    requires
        on_one_line(line),
    ensures
        env_file::entries_of(text::lines_of(line + seq!['\n'] + rest)) == (
        match env_file::entry_of(line) {
            Some(e) => seq![e] + env_file::entries_of(text::lines_of(rest)),
            None => env_file::entries_of(text::lines_of(rest)),
        }),
        env_file::entries_of(text::lines_of(line)) == env_file::entries_of(seq![line]),
    decreases line.len(),
{
    let nl = seq!['\n'];
    let none = Seq::<Seq<char>>::empty();
    if one_line(line) {
        lemma_first_line(line, rest);
        lemma_entry_carriage_return(line);
        lemma_entries_first(text::without_carriage_return(line), text::lines_of(rest));
        lemma_only_line(line);
    } else {
        let m = text::Margin::WhiteSpace;
        let n = line.len() as int;
        let b = text::strip_back(line, m);
        let p = text::position(line, '\n') as int;
        text::lemma_position(line, '\n');
        lemma_strip_back_parts(line);
        let first = line.take(p);
        let space = line.skip(p);
        let tail = line.skip(p + 1);
        assert(b.len() <= p < n) by {
            let i = choose|i: int| 0 <= i < n && line[i] == '\n';
            if p < b.len() {
                assert(b[p] == line[p]);
            }
        }
        assert(one_line(first)) by {
            if first.contains('\n') {
                let i = choose|i: int| 0 <= i < first.len() && first[i] == '\n';
                assert(line[i] == first[i]);
            }
        }
        assert forall|i: int| 0 <= i < space.len() implies text::white_space(
            #[trigger] space[i],
        ) by {
            assert(space[i] == line[p + i]);
        }
        assert(first + space =~= line);
        lemma_trimmed_behind(first, space);
        assert(text::strip_back(tail, m) =~= seq![]) by {
            lemma_strip_back_parts(tail);
            let back = text::strip_back(tail, m);
            if back.len() > 0 {
                assert(back.last() == line[p + back.len()]);
            }
        }
        lemma_trimmed_strip_back(tail);
        assert(text::trimmed(tail).len() == 0);
        lemma_line_entries(tail, rest);
        assert(line + nl + rest =~= first + nl + (tail + nl + rest));
        assert(line =~= first + nl + tail);
        lemma_first_line(first, tail + nl + rest);
        lemma_first_line(first, tail);
        lemma_entry_carriage_return(first);
        let kept = text::without_carriage_return(first);
        lemma_entries_first(kept, text::lines_of(tail + nl + rest));
        lemma_entries_first(kept, text::lines_of(tail));
        lemma_entries_first(line, none);
        lemma_entries_first(tail, none);
        assert(seq![line] + none =~= seq![line]);
        assert(seq![tail] + none =~= seq![tail]);
    }
}

/// Lines put together with line feeds hold the entries they held before.
proof fn lemma_joined_entries(lines: Seq<Seq<char>>)
    requires
        forall|i: int| 0 <= i < lines.len() ==> on_one_line(#[trigger] lines[i]),
    ensures
        env_file::entries_of(text::lines_of(text::joined(lines, seq!['\n'])))
            == env_file::entries_of(lines),
        env_file::entries_of(text::lines_of(text::joined(lines, seq!['\n']).push('\n')))
            == env_file::entries_of(lines),
    decreases lines.len(),
{
    let nl = seq!['\n'];
    let s = text::joined(lines, nl);
    let none = Seq::<char>::empty();
    if lines.len() == 0 {
        assert(on_one_line(none));
        lemma_line_entries(none, none);
        assert(s.push('\n') =~= none + nl + none);
        assert(text::trimmed(none).len() == 0);
    } else {
        let a = lines[0];
        let rest = lines.drop_first();
        assert(lines =~= seq![a] + rest);
        lemma_entries_first(a, rest);
        if lines.len() == 1 {
            lemma_line_entries(a, none);
            assert(lines =~= seq![a]);
            assert(s.push('\n') =~= a + nl + none);
        } else {
            assert forall|i: int| 0 <= i < rest.len() implies on_one_line(#[trigger] rest[i]) by {
                assert(rest[i] == lines[i + 1]);
            }
            lemma_joined_entries(rest);
            let r = text::joined(rest, nl);
            lemma_line_entries(a, r);
            assert(s.push('\n') =~= a + nl + r.push('\n'));
            lemma_line_entries(a, r.push('\n'));
        }
    }
}

/// The lines of a text have no line feed in them.
proof fn lemma_lines_one_line(s: Seq<char>)
    ensures
        forall|i: int|
            0 <= i < text::lines_of(s).len() ==> one_line(#[trigger] text::lines_of(s)[i]),
    decreases s.len(),
{
    text::lemma_position(s, '\n');
    let p = text::position(s, '\n') as int;
    if s.len() > 0 {
        if p < s.len() {
            let first = text::without_carriage_return(s.subrange(0, p));
            let rest = s.subrange(p + 1, s.len() as int);
            lemma_lines_one_line(rest);
            assert(one_line(first)) by {
                if first.contains('\n') {
                    let i = choose|i: int| 0 <= i < first.len() && first[i] == '\n';
                    assert(first[i] == s[i]);
                }
            }
            assert forall|i: int| 0 <= i < text::lines_of(s).len() implies one_line(
                #[trigger] text::lines_of(s)[i],
            ) by {
                if i > 0 {
                    assert(text::lines_of(s)[i] == text::lines_of(rest)[i - 1]);
                }
            }
        } else {
            assert(one_line(s)) by {
                if s.contains('\n') {
                    let i = choose|i: int| 0 <= i < s.len() && s[i] == '\n';
                    assert(s[i] != '\n');
                }
            }
        }
    }
}

/// Setting an entry looks at the lines from the front.
proof fn lemma_with_entry_front(lines: Seq<Seq<char>>, key: Seq<char>, value: Seq<char>)
    requires
        lines.len() > 0,
    ensures
        env_file::with_entry(lines, key, value) == (if env_file::sets(lines[0], key) {
            seq![env_file::line_for(key, value)] + lines.drop_first()
        } else {
            seq![lines[0]] + env_file::with_entry(lines.drop_first(), key, value)
        }),
{
    let rest = lines.drop_first();
    let entry = env_file::line_for(key, value);
    if env_file::sets(lines[0], key) {
        assert(lines.update(0, entry) =~= seq![entry] + rest);
    } else {
        let i = env_file::line_setting(rest, key) as int;
        env_file::lemma_line_setting(rest, key);
        if i < rest.len() {
            assert(lines.update(i + 1, entry) =~= seq![lines[0]] + rest.update(i, entry));
        } else {
            assert(lines.push(entry) =~= seq![lines[0]] + rest.push(entry));
        }
    }
}

proof fn lemma_lookup_first(
    line: Seq<char>,
    rest: Seq<Seq<char>>,
    key: Seq<char>,
)
    ensures
        lookup(env_file::entries_of(seq![line] + rest), key) == (match env_file::entry_of(line) {
            Some(e) => if e.0 == key {
                Some(e.1)
            } else {
                lookup(env_file::entries_of(rest), key)
            },
            None => lookup(env_file::entries_of(rest), key),
        }),
{
    lemma_entries_first(line, rest);
    if let Some(e) = env_file::entry_of(line) {
        let tail = env_file::entries_of(rest);
        assert((seq![e] + tail).drop_first() =~= tail);
    }
}

/// What setting one entry does to what is looked up.
proof fn lemma_with_entry_lookup(
    lines: Seq<Seq<char>>,
    key: Seq<char>,
    value: Seq<char>,
    other: Seq<char>,
)
    requires
        storable((key, value)),
    ensures
        tidy(lines, key) ==> lookup(
            env_file::entries_of(env_file::with_entry(lines, key, value)),
            key,
        ) == Some(loaded(value)),
        other != key ==> lookup(
            env_file::entries_of(env_file::with_entry(lines, key, value)),
            other,
        ) == lookup(env_file::entries_of(lines), other),
    decreases lines.len(),
{
    let entry = env_file::line_for(key, value);
    lemma_line_for(key, value);
    if lines.len() == 0 {
        assert(env_file::with_entry(lines, key, value) =~= seq![entry] + lines);
        lemma_lookup_first(entry, lines, key);
        lemma_lookup_first(entry, lines, other);
    } else {
        let rest = lines.drop_first();
        assert(lines =~= seq![lines[0]] + rest);
        lemma_with_entry_front(lines, key, value);
        lemma_lookup_first(lines[0], rest, other);
        if env_file::sets(lines[0], key) {
            lemma_sets_entry(lines[0], key);
            lemma_lookup_first(entry, rest, key);
            lemma_lookup_first(entry, rest, other);
        } else {
            lemma_with_entry_lookup(rest, key, value, other);
            let changed = env_file::with_entry(rest, key, value);
            lemma_lookup_first(lines[0], changed, key);
            lemma_lookup_first(lines[0], changed, other);
        }
    }
}

/// Setting one entry keeps the keys tidy.
proof fn lemma_with_entry_tidy(
    lines: Seq<Seq<char>>,
    key: Seq<char>,
    value: Seq<char>,
    other: Seq<char>,
)
    requires
        storable((key, value)),
        tidy(lines, other),
    ensures
        tidy(env_file::with_entry(lines, key, value), other),
    decreases lines.len(),
{
    let entry = env_file::line_for(key, value);
    let after = env_file::with_entry(lines, key, value);
    lemma_line_for(key, value);
    if lines.len() == 0 {
        assert(after =~= seq![entry]);
        assert(after.drop_first() =~= lines);
    } else {
        let rest = lines.drop_first();
        lemma_with_entry_front(lines, key, value);
        if env_file::sets(lines[0], key) {
            lemma_sets_entry(lines[0], key);
            assert(after.drop_first() =~= rest);
        } else {
            assert(after.drop_first() =~= env_file::with_entry(rest, key, value));
            if !(env_file::entry_of(lines[0]) matches Some(e) && e.0 == other) {
                lemma_with_entry_tidy(rest, key, value, other);
            }
        }
    }
}

/// Setting one entry keeps every entry on its line.
proof fn lemma_with_entry_lines(lines: Seq<Seq<char>>, key: Seq<char>, value: Seq<char>)
    requires
        storable((key, value)),
        forall|i: int| 0 <= i < lines.len() ==> on_one_line(#[trigger] lines[i]),
    ensures
        forall|i: int|
            0 <= i < env_file::with_entry(lines, key, value).len() ==> on_one_line(
                #[trigger] env_file::with_entry(lines, key, value)[i],
            ),
{
    let after = env_file::with_entry(lines, key, value);
    let entry = env_file::line_for(key, value);
    let m = text::Margin::WhiteSpace;
    env_file::lemma_line_setting(lines, key);
    assert(on_one_line(entry)) by {
        let back = text::strip_back(value, m);
        let head = key + seq!['='];
        lemma_strip_back_behind(head, value, m);
        if (head + back).contains('\n') {
            let i = choose|i: int| 0 <= i < (head + back).len() && (head + back)[i] == '\n';
            if i < key.len() {
                assert(key[i] == '\n');
            } else if i > key.len() {
                assert(back[i - head.len()] == '\n');
            }
        }
    }
    assert forall|i: int| 0 <= i < after.len() implies on_one_line(#[trigger] after[i]) by {
        if after[i] != entry {
            assert(after[i] == lines[i]);
        }
    }
}

proof fn lemma_last_value_front(pairs: Seq<(Seq<char>, Seq<char>)>, key: Seq<char>)
    requires
        pairs.len() > 0,
    ensures
        last_value(pairs, key) == (match last_value(pairs.drop_first(), key) {
            Some(v) => Some(v),
            None => if pairs[0].0 == key {
                Some(pairs[0].1)
            } else {
                None
            },
        }),
    decreases pairs.len(),
{
    if pairs.len() == 1 {
        assert(pairs.drop_first() =~= seq![]);
        assert(pairs.drop_last() =~= seq![]);
    } else {
        assert(pairs.drop_first().last() == pairs.last());
        assert(pairs.drop_first().drop_last() =~= pairs.drop_last().drop_first());
        lemma_last_value_front(pairs.drop_last(), key);
    }
}

proof fn lemma_merged_lookup(
    lines: Seq<Seq<char>>,
    pairs: Seq<(Seq<char>, Seq<char>)>,
    key: Seq<char>,
)
    requires
        all_storable(pairs),
        forall|i: int| 0 <= i < lines.len() ==> on_one_line(#[trigger] lines[i]),
        last_value(pairs, key) is Some ==> tidy(lines, key),
    ensures
        forall|i: int|
            0 <= i < env_file::merged(lines, pairs).len() ==> on_one_line(
                #[trigger] env_file::merged(lines, pairs)[i],
            ),
        lookup(env_file::entries_of(env_file::merged(lines, pairs)), key) == (match last_value(
            pairs,
            key,
        ) {
            Some(v) => Some(loaded(v)),
            None => lookup(env_file::entries_of(lines), key),
        }),
    decreases pairs.len(),
{
    if pairs.len() > 0 {
        let (k, v) = pairs[0];
        let rest = pairs.drop_first();
        assert(storable(pairs[0]));
        assert forall|i: int| 0 <= i < rest.len() implies storable(#[trigger] rest[i]) by {
            assert(rest[i] == pairs[i + 1]);
        }
        lemma_last_value_front(pairs, key);
        lemma_with_entry_lines(lines, k, v);
        if tidy(lines, key) {
            lemma_with_entry_tidy(lines, k, v, key);
        }
        lemma_with_entry_lookup(lines, k, v, key);
        lemma_merged_lookup(env_file::with_entry(lines, k, v), rest, key);
    }
}

/// What a write puts into a `.env` file is what the file holds afterwards:
/// each written key has the last value written for it, as values are loaded,
/// and every other key has the value it had. The one thing asked of the file
/// is that where it already has a written key, it does not first assign it with
/// white space between key and `=`.
pub proof fn written_file_holds_pairs(
    existing: Seq<char>,
    pairs: Seq<(Seq<char>, Seq<char>)>,
    key: Seq<char>,
)
    requires
        all_storable(pairs),
        last_value(pairs, key) is Some ==> tidy(text::lines_of(existing), key),
    ensures
        ({
            let written = env_file::file_of(env_file::merged(text::lines_of(existing), pairs));
            lookup(env_file::entries_of(text::lines_of(written)), key) == match last_value(
                pairs,
                key,
            ) {
                Some(v) => Some(loaded(v)),
                None => lookup(env_file::entries_of(text::lines_of(existing)), key),
            }
        }),
{
    let lines = text::lines_of(existing);
    lemma_lines_one_line(existing);
    assert forall|i: int| 0 <= i < lines.len() implies on_one_line(#[trigger] lines[i]) by {
        let back = text::strip_back(lines[i], text::Margin::WhiteSpace);
        lemma_strip_back_parts(lines[i]);
        assert(one_line(lines[i]));
        if back.contains('\n') {
            let j = choose|j: int| 0 <= j < back.len() && back[j] == '\n';
            assert(lines[i][j] == '\n');
        }
    }
    lemma_merged_lookup(lines, pairs, key);
    lemma_joined_entries(env_file::merged(lines, pairs));
}

/// Real environment variables win: loading assigns no key that is taken, and
/// every other key the value that the file holds for it.
pub proof fn environment_wins(
    entries: Seq<(Seq<char>, Seq<char>)>,
    taken: Seq<Seq<char>>,
    key: Seq<char>,
)
    ensures
        lookup(env_file::effective(entries, taken), key) == (if taken.contains(key) {
            None
        } else {
            lookup(entries, key)
        }),
    decreases entries.len(),
{
    if entries.len() > 0 {
        let k = entries[0].0;
        let rest = entries.drop_first();
        if taken.contains(k) {
            environment_wins(rest, taken, key);
        } else {
            let more = taken.push(k);
            environment_wins(rest, more, key);
            let tail = env_file::effective(rest, more);
            assert((seq![entries[0]] + tail).drop_first() =~= tail);
            assert(more.contains(key) <==> taken.contains(key) || key == k) by {
                if taken.contains(key) {
                    let i = choose|i: int| 0 <= i < taken.len() && taken[i] == key;
                    assert(more[i] == key);
                }
                assert(more[taken.len() as int] == k);
            }
        }
    }
}

/// Whether some variables are enough to set `key`, where `same` tells which keys
/// name the same variable.
pub open spec fn is_set(
    variables: Seq<(Seq<char>, Seq<char>)>,
    key: Seq<char>,
    same: spec_fn(Seq<char>, Seq<char>) -> bool,
) -> bool {
    exists|i: int| 0 <= i < variables.len() && same((#[trigger] variables[i]).0, key)
}

/// The variables after some assignments, each made unless its key is set by
/// then.
pub open spec fn assigned(
    variables: Seq<(Seq<char>, Seq<char>)>,
    entries: Seq<(Seq<char>, Seq<char>)>,
    same: spec_fn(Seq<char>, Seq<char>) -> bool,
) -> Seq<(Seq<char>, Seq<char>)>
    decreases entries.len(),
{
    if entries.len() == 0 {
        variables
    } else if is_set(variables, entries[0].0, same) {
        assigned(variables, entries.drop_first(), same)
    } else {
        assigned(variables.push(entries[0]), entries.drop_first(), same)
    }
}

/// Loading fills in what is not set, whichever keys name the same variable on a
/// system: making its assignments, each unless its key is set by then, leaves
/// the environment that doing so with every entry of the file leaves.
pub proof fn loading_fills_in_what_is_not_set(
    variables: Seq<(Seq<char>, Seq<char>)>,
    entries: Seq<(Seq<char>, Seq<char>)>,
    taken: Seq<Seq<char>>,
    same: spec_fn(Seq<char>, Seq<char>) -> bool,
)
    requires
        forall|k: Seq<char>| #[trigger] same(k, k),
        forall|i: int| 0 <= i < taken.len() ==> is_set(variables, #[trigger] taken[i], same),
    ensures
        assigned(variables, env_file::effective(entries, taken), same) == assigned(
            variables,
            entries,
            same,
        ),
    decreases entries.len(),
{
    if entries.len() > 0 {
        let e = entries[0];
        let rest = entries.drop_first();
        if taken.contains(e.0) {
            let i = choose|i: int| 0 <= i < taken.len() && taken[i] == e.0;
            assert(is_set(variables, taken[i], same));
            loading_fills_in_what_is_not_set(variables, rest, taken, same);
        } else {
            let more = taken.push(e.0);
            let tail = env_file::effective(rest, more);
            let next = if is_set(variables, e.0, same) {
                variables
            } else {
                variables.push(e)
            };
            assert((seq![e] + tail).drop_first() =~= tail);
            assert forall|i: int| 0 <= i < more.len() implies is_set(
                next,
                #[trigger] more[i],
                same,
            ) by {
                if i < taken.len() {
                    assert(is_set(variables, taken[i], same));
                    let j = choose|j: int|
                        0 <= j < variables.len() && same((#[trigger] variables[j]).0, taken[i]);
                    assert(next[j] == variables[j]);
                } else if next != variables {
                    assert(next[variables.len() as int] == e);
                }
            }
            loading_fills_in_what_is_not_set(next, rest, more, same);
        }
    }
}

/// A line is a key and a value: white space around either does not count, nor
/// do the quotes around the value. The key ends at the first `=`, and everything
/// between the quotes is kept.
pub proof fn a_line_is_a_key_and_a_value(
    front: Seq<char>,
    key: Seq<char>,
    gap: Seq<char>,
    space: Seq<char>,
    open: Seq<char>,
    bare: Seq<char>,
    close: Seq<char>,
    back: Seq<char>,
)
    requires
        text_laws::all_white(front),
        text_laws::all_white(gap),
        text_laws::all_white(space),
        text_laws::all_white(back),
        text_laws::all_quotes(open),
        text_laws::all_quotes(close),
        key.len() > 0,
        !text::white_space(key[0]),
        !text::white_space(key.last()),
        key[0] != '#',
        !key.contains('='),
        bare.len() > 0 ==> bare[0] != '"' && bare.last() != '"',
        bare.len() > 0 && open.len() == 0 ==> !text::white_space(bare[0]),
        bare.len() > 0 && close.len() == 0 ==> !text::white_space(bare.last()),
    ensures
        env_file::parts_of(
            front + (key + gap + seq!['='] + (space + (open + bare + close) + back)),
        ) == Some((key, bare)),
{
    let none = Seq::<char>::empty();
    let value = open + bare + close;
    let line = front + (key + gap + seq!['='] + (space + value + back));
    let head = key + gap;
    assert(!text::white_space('"') && !text::white_space('='));
    assert(value.len() > 0 ==> !text::white_space(value[0]) && !text::white_space(
        value.last(),
    )) by {
        if open.len() > 0 {
            assert(value[0] == open[0]);
        } else if bare.len() > 0 {
            assert(value[0] == bare[0]);
        } else if close.len() > 0 {
            assert(value[0] == close[0]);
        }
        if close.len() > 0 {
            assert(value.last() == close[close.len() - 1]);
        } else if bare.len() > 0 {
            assert(value.last() == bare.last());
        } else if open.len() > 0 {
            assert(value.last() == open[open.len() - 1]);
        }
    }
    let tail = if value.len() > 0 {
        space + value
    } else {
        none
    };
    let rest = if value.len() > 0 {
        back
    } else {
        space + back
    };
    let t = head + seq!['='] + tail;
    assert(text_laws::all_white(rest)) by {
        assert forall|i: int| 0 <= i < rest.len() implies text::white_space(#[trigger] rest[i]) by {
            if value.len() == 0 {
                if i < space.len() {
                    assert(rest[i] == space[i]);
                } else {
                    assert(rest[i] == back[i - space.len()]);
                }
            }
        }
    }
    assert(line =~= front + t + rest);
    assert(t[0] == key[0]);
    assert(!text::white_space(t.last())) by {
        if value.len() > 0 {
            assert(t.last() == value.last());
        } else {
            assert(t.last() == '=');
        }
    }
    text_laws::trimming_takes_the_white_space_alone(front, t, rest);
    assert(!head.contains('=')) by {
        if head.contains('=') {
            let i = choose|i: int| 0 <= i < head.len() && head[i] == '=';
            if i < key.len() {
                assert(key[i] == '=');
            } else {
                assert(gap[i - key.len()] == '=');
            }
        }
    }
    text_laws::a_character_is_found_where_it_first_stands(head, '=', tail);
    let p = head.len() as int;
    assert(t.subrange(0, p) =~= head);
    assert(head =~= none + key + gap);
    text_laws::trimming_takes_the_white_space_alone(none, key, gap);
    assert(t.subrange(p + 1, t.len() as int) =~= tail);
    if value.len() > 0 {
        assert(tail =~= space + value + none);
        text_laws::trimming_takes_the_white_space_alone(space, value, none);
    } else {
        assert(tail =~= none + none + none);
        text_laws::trimming_takes_the_white_space_alone(none, none, none);
        assert(value =~= none);
    }
    text_laws::stripping_takes_the_quotes_alone(open, bare, close);
}

/// Blank lines, comments, lines without `=` and lines with nothing but white
/// space before it hold no entry.
pub proof fn some_lines_hold_nothing(blank: Seq<char>, rest: Seq<char>, line: Seq<char>)
    requires
        text_laws::all_white(blank),
        !line.contains('='),
    ensures
        env_file::parts_of(blank) is None,
        env_file::parts_of(blank + seq!['#'] + rest) is None,
        env_file::parts_of(blank + seq!['='] + rest) is None,
        env_file::parts_of(line) is None,
{
    let none = Seq::<char>::empty();
    assert(blank + none + none =~= blank);
    text_laws::trimming_takes_the_white_space_alone(blank, none, none);
    assert(!text::white_space('#') && !text::white_space('='));
    lemma_trimmed_from(blank, '#', rest);
    lemma_trimmed_from(blank, '=', rest);
    let t = text::trimmed(blank + seq!['='] + rest);
    text_laws::a_character_is_found_where_it_first_stands(none, '=', t.drop_first());
    assert(none + seq!['='] + t.drop_first() =~= t);
    assert(t.subrange(0, 0) =~= none);
    assert(none + none + none =~= none);
    text_laws::trimming_takes_the_white_space_alone(none, none, none);
    lemma_trimmed_part(line);
    let u = text::trimmed(line);
    assert(!u.contains('=')) by {
        if u.contains('=') {
            let i = choose|i: int| 0 <= i < u.len() && u[i] == '=';
            let (a, b) = choose|a: int, b: int|
                0 <= a <= b <= line.len() && u == #[trigger] line.subrange(a, b);
            assert(line[a + i] == '=');
        }
    }
    text_laws::a_character_is_found_where_it_first_stands(u, '=', none);
}

/// What trimming leaves of a text that begins with a character behind white
/// space begins with that character.
proof fn lemma_trimmed_from(blank: Seq<char>, c: char, rest: Seq<char>)
    requires
        text_laws::all_white(blank),
        !text::white_space(c),
    ensures
        text::trimmed(blank + seq![c] + rest).len() > 0,
        text::trimmed(blank + seq![c] + rest)[0] == c,
{
    let m = text::Margin::WhiteSpace;
    let body = seq![c] + rest;
    let back = text::strip_back(body, m);
    lemma_strip_back_parts(body);
    lemma_strip_back_behind(seq![c], rest, m);
    assert(back[0] == c);
    let tail = body.skip(back.len() as int);
    assert(body =~= back + tail);
    assert(text_laws::all_white(tail)) by {
        assert forall|i: int| 0 <= i < tail.len() implies text::white_space(#[trigger] tail[i]) by {
            assert(tail[i] == body[back.len() + i]);
        }
    }
    text_laws::trimming_takes_the_white_space_alone(blank, back, tail);
    assert(blank + seq![c] + rest =~= blank + back + tail);
}

/// What trimming leaves is a part of the text.
proof fn lemma_trimmed_part(s: Seq<char>)
    ensures
        exists|a: int, b: int|
            0 <= a <= b <= s.len() && text::trimmed(s) == #[trigger] s.subrange(a, b),
    decreases s.len(),
{
    let m = text::Margin::WhiteSpace;
    if s.len() > 0 && text::white_space(s[0]) {
        let rest = s.drop_first();
        lemma_trimmed_part(rest);
        let (a, b) = choose|a: int, b: int|
            0 <= a <= b <= rest.len() && text::trimmed(rest) == #[trigger] rest.subrange(a, b);
        assert(rest.subrange(a, b) =~= s.subrange(a + 1, b + 1));
    } else {
        lemma_strip_back_parts(s);
        let n = text::strip_back(s, m).len() as int;
        assert(s.take(n) =~= s.subrange(0, n));
    }
}

/// A bare value that is no JSON array is loaded as it is. One that is an array
/// is loaded as its items, one per line: a string as it is, any other value by
/// its text. An array of one string is loaded as that string.
pub proof fn arrays_are_loaded_one_item_per_line(
    line: Seq<char>,
    key: Seq<char>,
    bare: Seq<char>,
    items: Seq<Seq<char>>,
    lines: Seq<Seq<char>>,
)
    requires
        env_file::parts_of(line) == Some((key, bare)),
        lines.len() == items.len(),
        forall|i: int|
            0 <= i < items.len() ==> items[i] == json::string_text(#[trigger] lines[i]) || (lines[i]
                == items[i] && forall|t: Seq<char>| items[i] != #[trigger] json::string_text(t)),
    ensures
        json::json_items(bare) is None ==> env_file::entry_of(line) == Some((key, bare)),
        json::json_items(bare) == Some(items) ==> env_file::entry_of(line) == Some(
            (key, text::joined(lines, seq!['\n'])),
        ),
        json::json_items(bare) == Some(items) && items.len() == 1 ==> env_file::entry_of(line)
            == Some((key, lines[0])),
        json::json_items(bare) == Some(items) && items.len() == 2 ==> env_file::entry_of(line)
            == Some((key, lines[0] + seq!['\n'] + lines[1])),
        env_file::expanded(bare, None) == bare,
        env_file::expanded(bare, Some(items)) == text::joined(lines, seq!['\n']),
        items.len() == 1 ==> env_file::expanded(bare, Some(items)) == lines[0],
{
    let nl = seq!['\n'];
    assert(env_file::item_lines(items) =~= lines) by {
        assert forall|i: int| 0 <= i < items.len() implies env_file::item_line(items[i])
            == lines[i] by {
            if items[i] == json::string_text(lines[i]) {
                json::lemma_string_of(lines[i]);
            }
        }
    }
    if items.len() == 1 {
        text_laws::parts_are_joined_in_order(lines, lines[0], nl);
        assert(lines =~= seq![lines[0]]);
    }
    if items.len() == 2 {
        let first = seq![lines[0]];
        text_laws::parts_are_joined_in_order(first, lines[1], nl);
        text_laws::parts_are_joined_in_order(first, lines[0], nl);
        assert(lines =~= first.push(lines[1]));
    }
}

/// A line without parts has no entry, and a line with parts has one, under the
/// same key.
pub proof fn an_entry_has_the_key_of_its_line(line: Seq<char>)
    ensures
        env_file::entry_of(line) is Some <==> env_file::parts_of(line) is Some,
        env_file::parts_of(line) matches Some(p) ==> (env_file::entry_of(line) matches Some(e) && e.0
            == p.0),
{
}

/// The entries of a file are those of its lines, in order and none left out.
pub proof fn entries_are_those_of_the_lines(a: Seq<Seq<char>>, b: Seq<Seq<char>>, line: Seq<char>)
    ensures
        env_file::entries_of(a + b) == env_file::entries_of(a) + env_file::entries_of(b),
        env_file::entries_of(seq![line]) == (match env_file::entry_of(line) {
            Some(e) => seq![e],
            None => seq![],
        }),
        env_file::entries_of(Seq::<Seq<char>>::empty()) == Seq::<
            (Seq<char>, Seq<char>),
        >::empty(),
    decreases a.len(),
{
    let none = Seq::<Seq<char>>::empty();
    assert(seq![line].drop_first() =~= none);
    assert(env_file::entries_of(none) =~= seq![]);
    if let Some(e) = env_file::entry_of(line) {
        assert(seq![e] + env_file::entries_of(none) =~= seq![e]);
    }
    if a.len() == 0 {
        assert(a + b =~= b);
        assert(env_file::entries_of(a) + env_file::entries_of(b) =~= env_file::entries_of(b));
    } else {
        let rest = a.drop_first();
        entries_are_those_of_the_lines(rest, b, line);
        assert((a + b).drop_first() =~= rest + b);
        assert((a + b)[0] == a[0]);
        if let Some(e) = env_file::entry_of(a[0]) {
            assert(seq![e] + (env_file::entries_of(rest) + env_file::entries_of(b)) =~= seq![e]
                + env_file::entries_of(rest) + env_file::entries_of(b));
        }
    }
}

/// Loading assigns no key twice, and none that is taken.
pub proof fn assignments_are_distinct(entries: Seq<(Seq<char>, Seq<char>)>, taken: Seq<Seq<char>>)
    ensures
        env_file::keys_of(env_file::effective(entries, taken)).no_duplicates(),
        forall|k: Seq<char>| #[trigger]
            env_file::keys_of(env_file::effective(entries, taken)).contains(k) ==> !taken.contains(
                k,
            ),
    decreases entries.len(),
{
    if entries.len() > 0 {
        let k = entries[0].0;
        let rest = entries.drop_first();
        if taken.contains(k) {
            assignments_are_distinct(rest, taken);
        } else {
            let more = taken.push(k);
            assignments_are_distinct(rest, more);
            let tail = env_file::keys_of(env_file::effective(rest, more));
            let all = env_file::keys_of(env_file::effective(entries, taken));
            assert(all =~= seq![k] + tail);
            assert(more[taken.len() as int] == k);
            assert forall|x: Seq<char>| taken.contains(x) implies more.contains(x) by {
                let i = choose|i: int| 0 <= i < taken.len() && taken[i] == x;
                assert(more[i] == x);
            }
            assert(!tail.contains(k));
            assert forall|i: int, j: int|
                0 <= i < all.len() && 0 <= j < all.len() && i != j implies all[i] != all[j] by {
                if i == 0 {
                    assert(tail.contains(tail[j - 1]));
                } else if j == 0 {
                    assert(tail.contains(tail[i - 1]));
                } else {
                    assert(tail[i - 1] != tail[j - 1]);
                }
            }
            assert forall|x: Seq<char>| #[trigger] all.contains(x) implies !taken.contains(x) by {
                let i = choose|i: int| 0 <= i < all.len() && all[i] == x;
                if i > 0 {
                    assert(tail.contains(tail[i - 1]));
                }
            }
        }
    }
}

/// A line that sets none of the written keys stays where it is, as it is.
pub proof fn other_lines_stay(
    lines: Seq<Seq<char>>,
    pairs: Seq<(Seq<char>, Seq<char>)>,
    i: int,
)
    requires
        0 <= i < lines.len(),
        forall|j: int| 0 <= j < pairs.len() ==> !env_file::sets(lines[i], #[trigger] pairs[j].0),
    ensures
        i < env_file::merged(lines, pairs).len(),
        env_file::merged(lines, pairs)[i] == lines[i],
    decreases pairs.len(),
{
    if pairs.len() > 0 {
        let (k, v) = pairs[0];
        let rest = pairs.drop_first();
        assert(!env_file::sets(lines[i], pairs[0].0));
        env_file::lemma_line_setting(lines, k);
        let after = env_file::with_entry(lines, k, v);
        assert(after[i] == lines[i]);
        assert forall|j: int| 0 <= j < rest.len() implies !env_file::sets(
            after[i],
            #[trigger] rest[j].0,
        ) by {
            assert(rest[j] == pairs[j + 1]);
        }
        other_lines_stay(after, rest, i);
    }
}

/// Whether a key is found again in a line that sets it: it has no white space
/// in front and no `=` in it.
pub open spec fn findable(key: Seq<char>) -> bool {
    &&& key.len() > 0 ==> !text::white_space(key[0])
    &&& !key.contains('=')
}

/// Whether every key is found again.
pub open spec fn all_findable(pairs: Seq<(Seq<char>, Seq<char>)>) -> bool {
    forall|i: int| 0 <= i < pairs.len() ==> findable((#[trigger] pairs[i]).0)
}

/// Whether a file gives a line back as it is: it fits on one line and does not
/// end in a carriage return.
pub open spec fn whole_line(s: Seq<char>) -> bool {
    one_line(s) && text::without_carriage_return(s) == s
}

/// Whether a file gives the lines of all pairs back as they are.
pub open spec fn all_whole(pairs: Seq<(Seq<char>, Seq<char>)>) -> bool {
    forall|i: int|
        0 <= i < pairs.len() ==> one_line((#[trigger] pairs[i]).0) && whole_line(pairs[i].1)
}

/// Whether a file gives all lines back as they are.
pub open spec fn whole_lines(lines: Seq<Seq<char>>) -> bool {
    forall|i: int| 0 <= i < lines.len() ==> whole_line(#[trigger] lines[i])
}

/// Whether there is no blank line behind another line at the end.
pub open spec fn ends_well(lines: Seq<Seq<char>>) -> bool {
    lines.len() > 1 ==> lines.last().len() > 0
}

/// Whether every carriage return in a text either ends a line together with the
/// line feed behind it or does not stand at the end of a line at all.
pub open spec fn tidy_returns(s: Seq<char>) -> bool {
    forall|i: int|
        0 <= i < s.len() && #[trigger] s[i] == '\r' ==> i + 1 < s.len() && !(i + 2 < s.len() && s[i
            + 1] == '\r' && s[i + 2] == '\n')
}

/// Whether a text ends with a blank line behind another line.
pub open spec fn ends_blank(s: Seq<char>) -> bool {
    let n = s.len() as int;
    ||| n >= 2 && s[n - 1] == '\n' && s[n - 2] == '\n'
    ||| n >= 3 && s[n - 1] == '\n' && s[n - 2] == '\r' && s[n - 3] == '\n'
}

/// Whether the first line that sets `key` sets it to `value`.
pub open spec fn settled(lines: Seq<Seq<char>>, key: Seq<char>, value: Seq<char>) -> bool {
    let i = env_file::line_setting(lines, key) as int;
    i < lines.len() && lines[i] == env_file::line_for(key, value)
}

/// The line of a findable key sets it.
proof fn lemma_line_sets(key: Seq<char>, value: Seq<char>)
    requires
        findable(key),
    ensures
        env_file::sets(env_file::line_for(key, value), key),
{
    let m = text::Margin::WhiteSpace;
    let line = env_file::line_for(key, value);
    let head = key + seq!['='];
    assert(line =~= head + value);
    assert(line[0] == head[0]);
    assert(text::strip_front(line, m) == line);
    lemma_strip_back_behind(head, value, m);
    let t = text::trimmed(line);
    assert(t.subrange(0, head.len() as int) =~= head);
}

/// A line sets one findable key only.
proof fn lemma_sets_one(line: Seq<char>, a: Seq<char>, b: Seq<char>)
    requires
        findable(a),
        findable(b),
        env_file::sets(line, a),
        env_file::sets(line, b),
    ensures
        a == b,
{
    let t = text::trimmed(line);
    let x = t.subrange(0, a.len() as int + 1);
    let y = t.subrange(0, b.len() as int + 1);
    assert(x == a + seq!['=']);
    assert(y == b + seq!['=']);
    if a.len() < b.len() {
        assert(x[a.len() as int] == '=' && y[a.len() as int] == b[a.len() as int]);
        assert(b.contains('='));
    }
    if b.len() < a.len() {
        assert(y[b.len() as int] == '=' && x[b.len() as int] == a[b.len() as int]);
        assert(a.contains('='));
    }
    assert(a =~= x.drop_last());
    assert(b =~= y.drop_last());
}

/// Setting a key settles it, in the line that set it before if there was one.
proof fn lemma_with_entry_settles(lines: Seq<Seq<char>>, key: Seq<char>, value: Seq<char>)
    requires
        findable(key),
    ensures
        settled(env_file::with_entry(lines, key, value), key, value),
        env_file::line_setting(env_file::with_entry(lines, key, value), key)
            == env_file::line_setting(lines, key),
{
    let after = env_file::with_entry(lines, key, value);
    let i = env_file::line_setting(lines, key) as int;
    env_file::lemma_line_setting(lines, key);
    lemma_line_sets(key, value);
    assert forall|j: int| 0 <= j < i implies !env_file::sets(#[trigger] after[j], key) by {
        assert(after[j] == lines[j]);
    }
    env_file::lemma_line_setting_is(after, key, i);
}

/// Setting a key leaves the line that sets another where it is.
proof fn lemma_with_entry_apart(
    lines: Seq<Seq<char>>,
    key: Seq<char>,
    value: Seq<char>,
    other: Seq<char>,
)
    requires
        findable(key),
        findable(other),
        key != other,
        env_file::line_setting(lines, other) < lines.len(),
    ensures
        ({
            let after = env_file::with_entry(lines, key, value);
            let i = env_file::line_setting(lines, other) as int;
            &&& env_file::line_setting(after, other) == i
            &&& i < after.len()
            &&& after[i] == lines[i]
            &&& i != env_file::line_setting(lines, key)
        }),
{
    let after = env_file::with_entry(lines, key, value);
    let entry = env_file::line_for(key, value);
    let i = env_file::line_setting(lines, other) as int;
    env_file::lemma_line_setting(lines, other);
    env_file::lemma_line_setting(lines, key);
    lemma_line_sets(key, value);
    if env_file::sets(entry, other) {
        lemma_sets_one(entry, key, other);
    }
    if env_file::sets(lines[i], key) {
        lemma_sets_one(lines[i], key, other);
    }
    assert forall|j: int| 0 <= j < i implies !env_file::sets(#[trigger] after[j], other) by {
        assert(after[j] == entry || after[j] == lines[j]);
    }
    env_file::lemma_line_setting_is(after, other, i);
}

/// Where a key that is not set yet would be put does not depend on the value of
/// another key.
proof fn lemma_with_entry_absent(
    lines: Seq<Seq<char>>,
    key: Seq<char>,
    value: Seq<char>,
    other: Seq<char>,
)
    requires
        findable(key),
        findable(other),
        key != other,
        env_file::line_setting(lines, key) < lines.len(),
    ensures
        env_file::line_setting(env_file::with_entry(lines, key, value), other)
            == env_file::line_setting(lines, other),
{
    let after = env_file::with_entry(lines, key, value);
    let entry = env_file::line_for(key, value);
    let j = env_file::line_setting(lines, other) as int;
    env_file::lemma_line_setting(lines, other);
    if j < lines.len() {
        lemma_with_entry_apart(lines, key, value, other);
    } else {
        lemma_line_sets(key, value);
        if env_file::sets(entry, other) {
            lemma_sets_one(entry, key, other);
        }
        assert forall|i: int| 0 <= i < j implies !env_file::sets(#[trigger] after[i], other) by {
            assert(after[i] == entry || after[i] == lines[i]);
        }
        env_file::lemma_line_setting_is(after, other, j);
    }
}

/// Setting a key that is set and setting another can be swapped.
proof fn lemma_with_entry_swap(
    lines: Seq<Seq<char>>,
    a: (Seq<char>, Seq<char>),
    b: (Seq<char>, Seq<char>),
)
    requires
        findable(a.0),
        findable(b.0),
        a.0 != b.0,
        env_file::line_setting(lines, a.0) < lines.len(),
    ensures
        env_file::with_entry(env_file::with_entry(lines, a.0, a.1), b.0, b.1)
            == env_file::with_entry(env_file::with_entry(lines, b.0, b.1), a.0, a.1),
{
    let x = env_file::with_entry(lines, a.0, a.1);
    let y = env_file::with_entry(lines, b.0, b.1);
    env_file::lemma_line_setting(lines, b.0);
    lemma_with_entry_apart(lines, b.0, b.1, a.0);
    lemma_with_entry_absent(lines, a.0, a.1, b.0);
    assert(env_file::with_entry(x, b.0, b.1) =~= env_file::with_entry(y, a.0, a.1));
}

/// Setting pairs behind others is setting all of them in turn.
proof fn lemma_merged_add(
    lines: Seq<Seq<char>>,
    a: Seq<(Seq<char>, Seq<char>)>,
    b: Seq<(Seq<char>, Seq<char>)>,
)
    ensures
        env_file::merged(lines, a + b) == env_file::merged(env_file::merged(lines, a), b),
    decreases a.len(),
{
    if a.len() == 0 {
        assert(a + b =~= b);
    } else {
        assert((a + b).drop_first() =~= a.drop_first() + b);
        lemma_merged_add(env_file::with_entry(lines, a[0].0, a[0].1), a.drop_first(), b);
    }
}

/// Setting pairs settles each key at the last value for it.
proof fn lemma_merged_settles(
    lines: Seq<Seq<char>>,
    pairs: Seq<(Seq<char>, Seq<char>)>,
    key: Seq<char>,
)
    requires
        all_findable(pairs),
    ensures
        last_value(pairs, key) matches Some(v) ==> settled(
            env_file::merged(lines, pairs),
            key,
            v,
        ),
    decreases pairs.len(),
{
    if pairs.len() > 0 {
        let front = pairs.drop_last();
        let (k, v) = pairs.last();
        let before = env_file::merged(lines, front);
        assert(findable(pairs[pairs.len() - 1].0));
        assert(front + seq![(k, v)] =~= pairs);
        lemma_merged_add(lines, front, seq![(k, v)]);
        assert(seq![(k, v)].drop_first() =~= seq![]);
        assert(env_file::merged(before, seq![(k, v)]) == env_file::merged(
            env_file::with_entry(before, k, v),
            seq![],
        ));
        lemma_with_entry_settles(before, k, v);
        if k != key && last_value(pairs, key) is Some {
            lemma_merged_settles(lines, front, key);
            lemma_last_findable(front, key);
            lemma_with_entry_apart(before, k, v, key);
        }
    }
}

/// A key that has a last value is one of the keys.
proof fn lemma_last_findable(pairs: Seq<(Seq<char>, Seq<char>)>, key: Seq<char>)
    requires
        all_findable(pairs),
        last_value(pairs, key) is Some,
    ensures
        findable(key),
    decreases pairs.len(),
{
    assert(findable(pairs[pairs.len() - 1].0));
    if pairs.last().0 != key {
        lemma_last_findable(pairs.drop_last(), key);
    }
}

/// A value that is overwritten later makes no difference, if the key was set
/// already.
proof fn lemma_merged_absorbs(
    lines: Seq<Seq<char>>,
    pair: (Seq<char>, Seq<char>),
    pairs: Seq<(Seq<char>, Seq<char>)>,
)
    requires
        findable(pair.0),
        all_findable(pairs),
        last_value(pairs, pair.0) is Some,
        env_file::line_setting(lines, pair.0) < lines.len(),
    ensures
        env_file::merged(env_file::with_entry(lines, pair.0, pair.1), pairs) == env_file::merged(
            lines,
            pairs,
        ),
    decreases pairs.len(),
{
    let (k, v) = pairs[0];
    let rest = pairs.drop_first();
    let once = env_file::with_entry(lines, pair.0, pair.1);
    lemma_last_value_front(pairs, pair.0);
    assert(findable(pairs[0].0));
    if k == pair.0 {
        lemma_with_entry_settles(lines, pair.0, pair.1);
        assert(env_file::with_entry(once, k, v) =~= env_file::with_entry(lines, k, v));
    } else {
        lemma_with_entry_swap(lines, pair, (k, v));
        lemma_with_entry_apart(lines, k, v, pair.0);
        assert forall|i: int| 0 <= i < rest.len() implies findable((#[trigger] rest[i]).0) by {
            assert(rest[i] == pairs[i + 1]);
        }
        lemma_merged_absorbs(env_file::with_entry(lines, k, v), pair, rest);
    }
}

/// Setting pairs whose keys are settled at their last values changes nothing.
proof fn lemma_settled_is_same(lines: Seq<Seq<char>>, pairs: Seq<(Seq<char>, Seq<char>)>)
    requires
        all_findable(pairs),
        forall|key: Seq<char>|
            #![trigger last_value(pairs, key)]
            last_value(pairs, key) matches Some(v) ==> settled(lines, key, v),
    ensures
        env_file::merged(lines, pairs) == lines,
    decreases pairs.len(),
{
    if pairs.len() > 0 {
        let (k, v) = pairs[0];
        let rest = pairs.drop_first();
        assert(findable(pairs[0].0));
        assert forall|i: int| 0 <= i < rest.len() implies findable((#[trigger] rest[i]).0) by {
            assert(rest[i] == pairs[i + 1]);
        }
        assert forall|key: Seq<char>|
            #![trigger last_value(rest, key)]
            last_value(rest, key) is Some implies settled(
            lines,
            key,
            last_value(rest, key)->0,
        ) by {
            lemma_last_value_front(pairs, key);
            assert(last_value(pairs, key) == last_value(rest, key));
        }
        lemma_settled_is_same(lines, rest);
        lemma_last_value_front(pairs, k);
        assert(last_value(pairs, k) is Some);
        if last_value(rest, k) is Some {
            lemma_merged_absorbs(lines, pairs[0], rest);
        } else {
            assert(env_file::with_entry(lines, k, v) =~= lines);
        }
    }
}

/// A line sets a key exactly if the key and `=` stand in it with nothing between
/// them, and nothing but white space in front.
pub proof fn a_line_sets_the_key_in_front(line: Seq<char>, blank: Seq<char>, key: Seq<char>, rest:
    Seq<char>)
    requires
        findable(key),
        text_laws::all_white(blank),
    ensures
        env_file::sets(blank + (key + seq!['='] + rest), key),
        env_file::sets(line, key) ==> exists|i: int|
            #![trigger line.skip(i)]
            0 <= i && i + key.len() < line.len() && text_laws::all_white(line.take(i))
                && line.skip(i).take(key.len() as int + 1) == key + seq!['='],
{
    let head = key + seq!['='];
    assert(!text::white_space('='));
    assert(head[0] == if key.len() > 0 { key[0] } else { '=' });
    lemma_trimmed_head(blank, head, rest);
    if env_file::sets(line, key) {
        lemma_trimmed_start(line);
        let t = text::trimmed(line);
        let i = choose|i: int|
            #![trigger line.skip(i)]
            0 <= i <= line.len() && text_laws::all_white(line.take(i)) && text::begins_with(
                line.skip(i),
                t,
            );
        let n = key.len() as int + 1;
        assert(t.subrange(0, n) == head);
        assert(line.skip(i).take(n) =~= line.skip(i).subrange(0, t.len() as int).subrange(0, n));
    }
}

/// What trimming leaves of a text that begins with a head behind white space,
/// where the head has no white space at its ends, begins with the head.
proof fn lemma_trimmed_head(blank: Seq<char>, head: Seq<char>, rest: Seq<char>)
    requires
        text_laws::all_white(blank),
        head.len() > 0,
        !text::white_space(head[0]),
        !text::white_space(head.last()),
    ensures
        text::begins_with(text::trimmed(blank + (head + rest)), head),
{
    let m = text::Margin::WhiteSpace;
    let body = head + rest;
    let back = text::strip_back(body, m);
    lemma_strip_back_parts(body);
    lemma_strip_back_behind(head, rest, m);
    let tail = body.skip(back.len() as int);
    assert(body =~= back + tail);
    assert(text_laws::all_white(tail)) by {
        assert forall|i: int| 0 <= i < tail.len() implies text::white_space(#[trigger] tail[i]) by {
            assert(tail[i] == body[back.len() + i]);
        }
    }
    assert(back[0] == head[0]);
    text_laws::trimming_takes_the_white_space_alone(blank, back, tail);
    assert(blank + (head + rest) =~= blank + back + tail);
    assert(back.subrange(0, head.len() as int) =~= head);
}

/// What trimming leaves stands behind the white space in front.
proof fn lemma_trimmed_start(s: Seq<char>)
    ensures
        exists|i: int|
            #![trigger s.skip(i)]
            0 <= i <= s.len() && text_laws::all_white(s.take(i)) && text::begins_with(
                s.skip(i),
                text::trimmed(s),
            ),
    decreases s.len(),
{
    if s.len() > 0 && text::white_space(s[0]) {
        let rest = s.drop_first();
        lemma_trimmed_start(rest);
        let i = choose|i: int|
            #![trigger rest.skip(i)]
            0 <= i <= rest.len() && text_laws::all_white(rest.take(i)) && text::begins_with(
                rest.skip(i),
                text::trimmed(rest),
            );
        assert(s.skip(i + 1) =~= rest.skip(i));
        assert forall|j: int| 0 <= j < i + 1 implies text::white_space(
            #[trigger] s.take(i + 1)[j],
        ) by {
            if j > 0 {
                assert(s.take(i + 1)[j] == rest.take(i)[j - 1]);
            }
        }
    } else {
        lemma_strip_back_parts(s);
        let t = text::trimmed(s);
        assert(s.skip(0) =~= s);
        assert(s.take(0) =~= seq![]);
        assert(s.subrange(0, t.len() as int) =~= s.take(t.len() as int));
    }
}

/// Setting a key changes the first line that sets it, or adds a line at the end
/// if there is none. The line is the key, `=` and the value, and every other
/// line stays. Pairs are set one after the other.
pub proof fn setting_a_key_changes_its_first_line(
    lines: Seq<Seq<char>>,
    key: Seq<char>,
    value: Seq<char>,
    i: int,
    rest: Seq<(Seq<char>, Seq<char>)>,
)
    requires
        0 <= i <= lines.len(),
        i < lines.len() ==> env_file::sets(lines[i], key),
        forall|j: int| 0 <= j < i ==> !env_file::sets(#[trigger] lines[j], key),
    ensures
        ({
            let line = key + seq!['='] + value;
            let after = if i < lines.len() {
                lines.update(i, line)
            } else {
                lines.push(line)
            };
            &&& env_file::merged(lines, seq![(key, value)]) == after
            &&& env_file::merged(lines, seq![(key, value)] + rest) == env_file::merged(after, rest)
            &&& env_file::merged(lines, Seq::<(Seq<char>, Seq<char>)>::empty()) == lines
        }),
{
    env_file::lemma_line_setting_is(lines, key, i);
    let one = seq![(key, value)];
    let after = env_file::with_entry(lines, key, value);
    assert(one.drop_first() =~= seq![]);
    assert(env_file::merged(after, seq![]) == after);
    assert((one + rest).drop_first() =~= rest);
    assert((one + rest)[0] == (key, value));
}

/// The text of a file is its lines with line feeds between them, and one at the
/// end unless there is one already.
pub proof fn a_file_is_its_lines(lines: Seq<Seq<char>>)
    ensures
        ({
            let s = text::joined(lines, seq!['\n']);
            let file = env_file::file_of(lines);
            &&& file.len() > 0
            &&& file.last() == '\n'
            &&& s.len() > 0 && s.last() == '\n' ==> file == s
            &&& !(s.len() > 0 && s.last() == '\n') ==> file == s + seq!['\n']
        }),
{
    let s = text::joined(lines, seq!['\n']);
    assert(s.push('\n') =~= s + seq!['\n']);
}

/// Merging the same pairs a second time changes no line.
pub proof fn merging_twice_changes_nothing(
    lines: Seq<Seq<char>>,
    pairs: Seq<(Seq<char>, Seq<char>)>,
)
    requires
        all_findable(pairs),
    ensures
        env_file::merged(env_file::merged(lines, pairs), pairs) == env_file::merged(lines, pairs),
{
    let after = env_file::merged(lines, pairs);
    assert forall|key: Seq<char>|
        #![trigger last_value(pairs, key)]
        last_value(pairs, key) is Some implies settled(after, key, last_value(pairs, key)->0) by {
        lemma_merged_settles(lines, pairs, key);
    }
    lemma_settled_is_same(after, pairs);
}

proof fn lemma_joined_lines(lines: Seq<Seq<char>>)
    requires
        lines.len() > 0,
        whole_lines(lines),
    ensures
        text::lines_of(text::joined(lines, seq!['\n']).push('\n')) == lines,
    decreases lines.len(),
{
    let nl = seq!['\n'];
    let none = Seq::<char>::empty();
    let a = lines[0];
    let rest = lines.drop_first();
    let s = text::joined(lines, nl).push('\n');
    assert(whole_line(lines[0]));
    if lines.len() == 1 {
        assert(s =~= a + nl + none);
        lemma_first_line(a, none);
        assert(seq![a] + text::lines_of(none) =~= lines);
    } else {
        let r = text::joined(rest, nl).push('\n');
        assert forall|i: int| 0 <= i < rest.len() implies whole_line(#[trigger] rest[i]) by {
            assert(rest[i] == lines[i + 1]);
        }
        lemma_joined_lines(rest);
        assert(s =~= a + nl + r);
        lemma_first_line(a, r);
        assert(seq![a] + rest =~= lines);
    }
}

/// Whole lines put together end in a line feed exactly if a blank line comes
/// behind another one.
proof fn lemma_joined_end(lines: Seq<Seq<char>>)
    requires
        lines.len() > 0,
        whole_lines(lines),
    ensures
        ({
            let s = text::joined(lines, seq!['\n']);
            &&& ends_well(lines) <==> !(s.len() > 0 && s.last() == '\n')
            &&& !ends_well(lines) ==> s == text::joined(lines.drop_last(), seq!['\n']).push('\n')
        }),
{
    let nl = seq!['\n'];
    let front = lines.drop_last();
    let last = lines.last();
    let s = text::joined(lines, nl);
    assert(whole_line(lines[lines.len() - 1]));
    assert(front.push(last) =~= lines);
    text::lemma_joined_push(front, last, nl);
    if last.len() > 0 {
        assert(s.last() == last.last());
        assert(last.contains(last.last()));
    } else if lines.len() > 1 {
        assert(s =~= text::joined(front, nl).push('\n'));
    }
}

/// A file gives its lines back, as long as they are whole and no blank line
/// comes last behind another one.
pub proof fn file_gives_back_its_lines(lines: Seq<Seq<char>>)
    requires
        lines.len() > 0,
        whole_lines(lines),
        ends_well(lines),
    ensures
        text::lines_of(env_file::file_of(lines)) == lines,
{
    lemma_joined_lines(lines);
    lemma_joined_end(lines);
}

/// Merging never takes a line away.
proof fn lemma_merged_len(lines: Seq<Seq<char>>, pairs: Seq<(Seq<char>, Seq<char>)>)
    ensures
        env_file::merged(lines, pairs).len() >= lines.len(),
        pairs.len() > 0 ==> env_file::merged(lines, pairs).len() > 0,
    decreases pairs.len(),
{
    if pairs.len() > 0 {
        lemma_merged_len(
            env_file::with_entry(lines, pairs[0].0, pairs[0].1),
            pairs.drop_first(),
        );
    }
}

/// Writing pairs to a file that they were written to leaves its text as it is,
/// as long as its lines are whole and do not end with two blank lines behind
/// another one.
pub proof fn rewriting_changes_nothing(
    lines: Seq<Seq<char>>,
    pairs: Seq<(Seq<char>, Seq<char>)>,
)
    requires
        all_findable(pairs),
        whole_lines(env_file::merged(lines, pairs)),
        ({
            let after = env_file::merged(lines, pairs);
            ends_well(after) || ends_well(after.drop_last())
        }),
    ensures
        ({
            let written = env_file::file_of(env_file::merged(lines, pairs));
            env_file::file_of(env_file::merged(text::lines_of(written), pairs)) == written
        }),
{
    let nl = seq!['\n'];
    let after = env_file::merged(lines, pairs);
    let written = env_file::file_of(after);
    lemma_merged_len(lines, pairs);
    if after.len() == 0 {
        let blank = Seq::<Seq<char>>::empty().push(seq![]);
        assert(written =~= text::joined(blank, nl).push('\n'));
        lemma_joined_lines(blank);
    } else if ends_well(after) {
        file_gives_back_its_lines(after);
        merging_twice_changes_nothing(lines, pairs);
    } else {
        let front = after.drop_last();
        assert forall|i: int| 0 <= i < front.len() implies whole_line(#[trigger] front[i]) by {
            assert(front[i] == after[i]);
        }
        lemma_joined_end(after);
        lemma_joined_end(front);
        lemma_joined_lines(front);
        assert forall|key: Seq<char>|
            #![trigger last_value(pairs, key)]
            last_value(pairs, key) is Some implies settled(
            front,
            key,
            last_value(pairs, key)->0,
        ) by {
            let i = env_file::line_setting(after, key) as int;
            lemma_merged_settles(lines, pairs, key);
            lemma_last_findable(pairs, key);
            env_file::lemma_line_setting(after, key);
            assert(front[i] == after[i]);
            assert forall|j: int| 0 <= j < i implies !env_file::sets(
                #[trigger] front[j],
                key,
            ) by {
                assert(front[j] == after[j]);
            }
            env_file::lemma_line_setting_is(front, key, i);
        }
        lemma_settled_is_same(front, pairs);
    }
}

/// The lines of a text with tidy carriage returns are whole, and where it does
/// not end with a blank line, neither do they.
proof fn lemma_lines_whole(s: Seq<char>)
    requires
        tidy_returns(s),
    ensures
        whole_lines(text::lines_of(s)),
        !ends_blank(s) ==> ends_well(text::lines_of(s)),
        s.len() > 0 ==> text::lines_of(s).len() > 0,
        text::lines_of(s).len() == 1 && text::lines_of(s)[0].len() == 0 ==> s == seq!['\n'] || s
            == seq!['\r', '\n'],
    decreases s.len(),
{
    text::lemma_position(s, '\n');
    lemma_lines_one_line(s);
    let lines = text::lines_of(s);
    let p = text::position(s, '\n') as int;
    let n = s.len() as int;
    if n > 0 && p < n {
        let first = s.subrange(0, p);
        let rest = s.subrange(p + 1, n);
        let tail = text::lines_of(rest);
        let kept = text::without_carriage_return(first);
        assert forall|i: int| 0 <= i < rest.len() && #[trigger] rest[i] == '\r' implies i + 1
            < rest.len() && !(i + 2 < rest.len() && rest[i + 1] == '\r' && rest[i + 2]
            == '\n') by {
            assert(s[p + 1 + i] == '\r');
        }
        lemma_lines_whole(rest);
        assert(lines[0] == kept);
        assert(text::without_carriage_return(kept) == kept) by {
            if kept.len() > 0 && kept.last() == '\r' {
                if p >= 2 && s[p - 1] == '\r' && s[p - 2] == '\r' {
                    assert(s[p] == '\n');
                } else {
                    assert(first.last() == s[p - 1]);
                    assert(kept.last() == first[kept.len() - 1]);
                }
            }
        }
        assert forall|i: int| 0 <= i < lines.len() implies whole_line(#[trigger] lines[i]) by {
            if i > 0 {
                assert(lines[i] == tail[i - 1]);
            }
        }
        if !ends_blank(s) && lines.len() > 1 {
            assert(lines.last() == tail.last());
            if tail.len() == 1 && tail[0].len() == 0 {
                if rest == seq!['\n'] {
                    assert(rest[0] == s[p + 1]);
                } else {
                    assert(rest[0] == s[p + 1] && rest[1] == s[p + 2]);
                }
                assert(ends_blank(s));
            }
            assert(ends_blank(rest) ==> ends_blank(s)) by {
                assert(forall|i: int| 0 <= i < rest.len() ==> rest[i] == s[p + 1 + i]);
            }
        }
        if lines.len() == 1 && kept.len() == 0 {
            assert(tail.len() == 0);
            assert(rest.len() == 0);
            if p == 0 {
                assert(s =~= seq!['\n']);
            } else {
                assert(p == 1 && first.last() == s[0]);
                assert(s =~= seq!['\r', '\n']);
            }
        }
    } else if n > 0 {
        assert(lines =~= seq![s]);
        if s.last() == '\r' {
            assert(s[n - 1] == '\r');
        }
        assert(whole_line(s)) by {
            assert(one_line(lines[0]));
        }
    }
}

/// Merging whole pairs keeps lines whole and puts no blank line at the end.
proof fn lemma_merged_whole(lines: Seq<Seq<char>>, pairs: Seq<(Seq<char>, Seq<char>)>)
    requires
        whole_lines(lines),
        ends_well(lines),
        all_whole(pairs),
    ensures
        whole_lines(env_file::merged(lines, pairs)),
        ends_well(env_file::merged(lines, pairs)),
    decreases pairs.len(),
{
    if pairs.len() > 0 {
        let (k, v) = pairs[0];
        let rest = pairs.drop_first();
        let entry = env_file::line_for(k, v);
        let after = env_file::with_entry(lines, k, v);
        assert(one_line(pairs[0].0) && whole_line(pairs[0].1));
        assert(whole_line(entry)) by {
            if entry.contains('\n') {
                let i = choose|i: int| 0 <= i < entry.len() && entry[i] == '\n';
                if i < k.len() {
                    assert(k[i] == '\n');
                } else if i > k.len() {
                    assert(v[i - k.len() - 1] == '\n');
                }
            }
            if v.len() > 0 {
                assert(entry.last() == v.last());
                if v.last() == '\r' {
                    assert(v.drop_last().len() < v.len());
                }
            } else {
                assert(entry.last() == '=');
            }
        }
        env_file::lemma_line_setting(lines, k);
        assert forall|i: int| 0 <= i < after.len() implies whole_line(#[trigger] after[i]) by {
            if after[i] != entry {
                assert(after[i] == lines[i]);
            }
        }
        assert forall|i: int| 0 <= i < rest.len() implies one_line((#[trigger] rest[i]).0)
            && whole_line(rest[i].1) by {
            assert(rest[i] == pairs[i + 1]);
        }
        lemma_merged_whole(after, rest);
    }
}

/// Writing the same pairs a second time leaves the text of the file as it is:
/// no key is doubled, and no line is added or dropped.
pub proof fn writing_twice_changes_nothing(
    existing: Seq<char>,
    pairs: Seq<(Seq<char>, Seq<char>)>,
)
    requires
        all_findable(pairs),
        all_whole(pairs),
        tidy_returns(existing),
        !ends_blank(existing),
    ensures
        ({
            let written = env_file::file_of(env_file::merged(text::lines_of(existing), pairs));
            env_file::file_of(env_file::merged(text::lines_of(written), pairs)) == written
        }),
{
    lemma_lines_whole(existing);
    lemma_merged_whole(text::lines_of(existing), pairs);
    rewriting_changes_nothing(text::lines_of(existing), pairs);
}

/// Writing some pairs and then others leaves the text that writing all of them
/// at once leaves.
pub proof fn writing_in_turn_is_writing_at_once(
    existing: Seq<char>,
    first: Seq<(Seq<char>, Seq<char>)>,
    second: Seq<(Seq<char>, Seq<char>)>,
)
    requires
        existing.len() > 0 || first.len() > 0,
        all_whole(first),
        tidy_returns(existing),
        !ends_blank(existing),
    ensures
        ({
            let lines = text::lines_of(existing);
            let written = env_file::file_of(env_file::merged(lines, first));
            env_file::file_of(env_file::merged(text::lines_of(written), second))
                == env_file::file_of(env_file::merged(lines, first + second))
        }),
{
    let lines = text::lines_of(existing);
    lemma_lines_whole(existing);
    lemma_merged_whole(lines, first);
    lemma_merged_len(lines, first);
    file_gives_back_its_lines(env_file::merged(lines, first));
    lemma_merged_add(lines, first, second);
}

} // verus!
