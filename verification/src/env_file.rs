//! The `.env` file: `KEY=VALUE` lines that hold a module's secrets.

use crate::json;
use crate::text;
use vstd::prelude::*;

verus! {

/// The key and the bare value of a line. Blank lines, lines that begin with
/// `#`, lines without `=` and lines without a key have none. White space
/// around key and value does not count, nor do the quotes around the value.
pub open spec fn parts_of(line: Seq<char>) -> Option<(Seq<char>, Seq<char>)> {
    let t = text::trimmed(line);
    let p = text::position(t, '=') as int;
    if t.len() == 0 || t[0] == '#' || p >= t.len() {
        None
    } else {
        let key = text::trimmed(t.subrange(0, p));
        let value = text::trimmed(t.subrange(p + 1, t.len() as int));
        if key.len() == 0 {
            None
        } else {
            Some((key, text::stripped(value, text::Margin::Quote)))
        }
    }
}

/// An item of a JSON array, given its text, as it stands on a line: a string as
/// it is, any other value by its text.
pub open spec fn item_line(item: Seq<char>) -> Seq<char> {
    match json::string_of(item) {
        Some(s) => s,
        None => item,
    }
}

/// The items of a JSON array as they stand on lines.
pub open spec fn item_lines(items: Seq<Seq<char>>) -> Seq<Seq<char>> {
    Seq::new(items.len(), |i: int| item_line(items[i]))
}

/// The value that a bare value stands for, given the items that it lists as a
/// JSON array, if it does: these one per line, otherwise the bare value.
pub open spec fn expanded(bare: Seq<char>, items: Option<Seq<Seq<char>>>) -> Seq<char> {
    match items {
        Some(items) => text::joined(item_lines(items), seq!['\n']),
        None => bare,
    }
}

/// The key and the value of a line.
pub open spec fn entry_of(line: Seq<char>) -> Option<(Seq<char>, Seq<char>)> {
    match parts_of(line) {
        Some((key, bare)) => Some((key, expanded(bare, json::json_items(bare)))),
        None => None,
    }
}

/// The entries of some lines, in order.
pub open spec fn entries_of(lines: Seq<Seq<char>>) -> Seq<(Seq<char>, Seq<char>)>
    decreases lines.len(),
{
    if lines.len() == 0 {
        seq![]
    } else {
        match entry_of(lines[0]) {
            Some(entry) => seq![entry] + entries_of(lines.drop_first()),
            None => entries_of(lines.drop_first()),
        }
    }
}

/// The entries to assign where the keys `taken` are already set: of each other
/// key, as it is written, the first.
pub open spec fn effective(
    entries: Seq<(Seq<char>, Seq<char>)>,
    taken: Seq<Seq<char>>,
) -> Seq<(Seq<char>, Seq<char>)>
    decreases entries.len(),
{
    if entries.len() == 0 {
        seq![]
    } else if taken.contains(entries[0].0) {
        effective(entries.drop_first(), taken)
    } else {
        seq![entries[0]] + effective(entries.drop_first(), taken.push(entries[0].0))
    }
}

/// The line that sets `key` to `value`.
pub open spec fn line_for(key: Seq<char>, value: Seq<char>) -> Seq<char> {
    key + seq!['='] + value
}

/// Whether a line sets `key`, written with nothing between key and `=`.
pub open spec fn sets(line: Seq<char>, key: Seq<char>) -> bool {
    text::begins_with(text::trimmed(line), key + seq!['='])
}

/// The first line that sets `key`, or the number of lines if there is none.
pub open spec fn line_setting(lines: Seq<Seq<char>>, key: Seq<char>) -> nat
    decreases lines.len(),
{
    if lines.len() == 0 || sets(lines[0], key) {
        0
    } else {
        1 + line_setting(lines.drop_first(), key)
    }
}

/// The lines with `key` set to `value`: in the first line that sets the key,
/// or else in a line of its own at the end.
pub open spec fn with_entry(
    lines: Seq<Seq<char>>,
    key: Seq<char>,
    value: Seq<char>,
) -> Seq<Seq<char>> {
    let i = line_setting(lines, key) as int;
    if i < lines.len() {
        lines.update(i, line_for(key, value))
    } else {
        lines.push(line_for(key, value))
    }
}

/// The lines with each of the pairs set in turn.
pub open spec fn merged(
    lines: Seq<Seq<char>>,
    pairs: Seq<(Seq<char>, Seq<char>)>,
) -> Seq<Seq<char>>
    decreases pairs.len(),
{
    if pairs.len() == 0 {
        lines
    } else {
        merged(with_entry(lines, pairs[0].0, pairs[0].1), pairs.drop_first())
    }
}

/// The file made of some lines: it ends with a line feed.
pub open spec fn file_of(lines: Seq<Seq<char>>) -> Seq<char> {
    let s = text::joined(lines, seq!['\n']);
    if s.len() > 0 && s.last() == '\n' {
        s
    } else {
        s.push('\n')
    }
}

/// The texts of a slice of pairs.
pub open spec fn pair_texts(pairs: Seq<(&str, &str)>) -> Seq<(Seq<char>, Seq<char>)> {
    Seq::new(pairs.len(), |i: int| (pairs[i].0@, pairs[i].1@))
}

/// The texts of an optional pair of strings.
pub open spec fn option_pair(p: Option<(String, String)>) -> Option<(Seq<char>, Seq<char>)> {
    match p {
        Some((a, b)) => Some((a@, b@)),
        None => None,
    }
}

/// The key and the bare value of a line.
pub fn split_line(line: &str) -> (r: Option<(String, String)>)
    ensures
        option_pair(r) == parts_of(line@),
{
    let t = text::trim(line);
    let n = t.unicode_len();
    if n == 0 || t.get_char(0) == '#' {
        return None;
    }
    let p = text::find(t, '=');
    proof {
        text::lemma_position(t@, '=');
    }
    if p >= n {
        return None;
    }
    let key = text::trim(t.substring_char(0, p));
    let value = text::trim(t.substring_char(p + 1, n));
    if key.is_empty() {
        return None;
    }
    Some((key.to_owned(), text::strip(value, text::Margin::Quote).to_owned()))
}

/// An item of a JSON array as it stands on a line.
fn line_of(item: &serde_json::Value) -> (r: String)
    ensures
        r@ == item_line(json::value_text(*item)),
{
    match json::value_string(item) {
        Some(s) => s,
        None => json::value_json(item),
    }
}

/// The value that a bare value stands for, given the items that it lists.
pub fn expand(bare: String, items: Option<Vec<serde_json::Value>>) -> (r: String)
    ensures
        r@ == expanded(bare@, json::option_items(items)),
{
    proof {
        reveal_strlit("\n");
        assert("\n"@ =~= seq!['\n']);
    }
    match items {
        Some(items) => {
            let ghost want = item_lines(json::value_texts(items@));
            let mut lines: Vec<String> = Vec::new();
            let mut i: usize = 0;
            while i < items.len()
                invariant
                    i <= items.len(),
                    want == item_lines(json::value_texts(items@)),
                    text::texts(lines@) == want.take(i as int),
                decreases items.len() - i,
            {
                let ghost before = lines@;
                lines.push(line_of(&items[i]));
                assert(text::texts(lines@) =~= text::texts(before).push(want[i as int]));
                assert(want.take(i + 1) =~= want.take(i as int).push(want[i as int]));
                i += 1;
            }
            assert(want.take(i as int) =~= want);
            text::join(&lines, "\n")
        },
        None => bare,
    }
}

/// The key and the value of a line.
pub fn entry(line: &str) -> (r: Option<(String, String)>)
    ensures
        option_pair(r) == entry_of(line@),
{
    match split_line(line) {
        Some((key, bare)) => {
            let items = json::parse_items(bare.as_str());
            Some((key, expand(bare, items)))
        },
        None => None,
    }
}

proof fn lemma_pairs_push(v: Seq<(String, String)>, p: (String, String))
    ensures
        text::text_pairs(v.push(p)) == text::text_pairs(v).push((p.0@, p.1@)),
{
    assert(text::text_pairs(v.push(p)) =~= text::text_pairs(v).push((p.0@, p.1@)));
}

/// The entries of a file, in order.
pub fn entries(content: &str) -> (r: Vec<(String, String)>)
    ensures
        text::text_pairs(r@) == entries_of(text::lines_of(content@)),
{
    let lines = text::lines(content);
    let ghost all = text::texts(lines@);
    let mut r: Vec<(String, String)> = Vec::new();
    let mut i: usize = 0;
    assert(all.skip(0) =~= all);
    assert(text::text_pairs(r@) + entries_of(all) =~= entries_of(all));
    while i < lines.len()
        invariant
            i <= lines.len(),
            all == text::texts(lines@),
            entries_of(all) == text::text_pairs(r@) + entries_of(all.skip(i as int)),
        decreases lines.len() - i,
    {
        let ghost before = r@;
        let ghost rest = all.skip(i as int);
        assert(rest.drop_first() =~= all.skip(i + 1));
        assert(rest[0] == lines@[i as int]@);
        if let Some(e) = entry(lines[i].as_str()) {
            r.push(e);
            proof {
                lemma_pairs_push(before, e);
                let pair = (e.0@, e.1@);
                assert(text::text_pairs(before) + (seq![pair] + entries_of(all.skip(i + 1)))
                    =~= text::text_pairs(before).push(pair) + entries_of(all.skip(i + 1)));
            }
        }
        i += 1;
    }
    assert(all.skip(all.len() as int) =~= seq![]);
    assert(text::text_pairs(r@) + entries_of(seq![]) =~= text::text_pairs(r@));
    r
}

/// The keys of some entries.
pub open spec fn keys_of(entries: Seq<(Seq<char>, Seq<char>)>) -> Seq<Seq<char>> {
    Seq::new(entries.len(), |i: int| entries[i].0)
}

fn is_among(key: &String, keys: &Vec<String>) -> (r: bool)
    ensures
        r == text::texts(keys@).contains(key@),
{
    let mut i: usize = 0;
    while i < keys.len()
        invariant
            i <= keys.len(),
            forall|j: int| 0 <= j < i ==> keys@[j]@ != key@,
        decreases keys.len() - i,
    {
        if keys[i] == *key {
            assert(text::texts(keys@)[i as int] == key@);
            return true;
        }
        i += 1;
    }
    false
}

fn is_key_of(key: &String, entries: &Vec<(String, String)>) -> (r: bool)
    ensures
        r == keys_of(text::text_pairs(entries@)).contains(key@),
{
    let mut i: usize = 0;
    while i < entries.len()
        invariant
            i <= entries.len(),
            forall|j: int| 0 <= j < i ==> entries@[j].0@ != key@,
        decreases entries.len() - i,
    {
        if entries[i].0 == *key {
            assert(keys_of(text::text_pairs(entries@))[i as int] == key@);
            return true;
        }
        i += 1;
    }
    false
}

/// The assignments that loading a `.env` file makes, in order, where `taken`
/// are the keys that the environment already has. Those keep their value; of
/// each other key, as it is written, the first entry counts. Each assignment is
/// made unless its key has been set by then, which it can only have been where
/// keys that are written differently name the same variable.
pub fn load_env_file(content: &str, taken: &Vec<String>) -> (r: Vec<(String, String)>)
    ensures
        text::text_pairs(r@) == effective(
            entries_of(text::lines_of(content@)),
            text::texts(taken@),
        ),
{
    let found = entries(content);
    let ghost all = text::text_pairs(found@);
    let ghost set = text::texts(taken@);
    let mut r: Vec<(String, String)> = Vec::new();
    let mut i: usize = 0;
    assert(all.skip(0) =~= all);
    assert(set + keys_of(text::text_pairs(r@)) =~= set);
    assert(text::text_pairs(r@) + effective(all, set) =~= effective(all, set));
    while i < found.len()
        invariant
            i <= found.len(),
            all == text::text_pairs(found@),
            set == text::texts(taken@),
            effective(all, set) == text::text_pairs(r@) + effective(
                all.skip(i as int),
                set + keys_of(text::text_pairs(r@)),
            ),
        decreases found.len() - i,
    {
        let ghost before = r@;
        let ghost rest = all.skip(i as int);
        let ghost seen = set + keys_of(text::text_pairs(before));
        assert(rest.drop_first() =~= all.skip(i + 1));
        assert(rest[0] == (found@[i as int].0@, found@[i as int].1@));
        let known = is_among(&found[i].0, taken) || is_key_of(&found[i].0, &r);
        proof {
            let k = rest[0].0;
            let own = keys_of(text::text_pairs(before));
            assert(known == seen.contains(k)) by {
                if set.contains(k) {
                    let j = choose|j: int| 0 <= j < set.len() && set[j] == k;
                    assert(seen[j] == k);
                }
                if own.contains(k) {
                    let j = choose|j: int| 0 <= j < own.len() && own[j] == k;
                    assert(seen[set.len() + j] == k);
                }
                if seen.contains(k) {
                    let j = choose|j: int| 0 <= j < seen.len() && seen[j] == k;
                    if j < set.len() {
                        assert(set[j] == k);
                    } else {
                        assert(own[j - set.len()] == k);
                    }
                }
            }
        }
        if !known {
            let e = (found[i].0.clone(), found[i].1.clone());
            r.push(e);
            proof {
                lemma_pairs_push(before, e);
                let tail = effective(all.skip(i + 1), seen.push(rest[0].0));
                assert(set + keys_of(text::text_pairs(r@)) =~= seen.push(rest[0].0));
                assert(text::text_pairs(before) + (seq![rest[0]] + tail) =~= text::text_pairs(
                    before,
                ).push(rest[0]) + tail);
            }
        }
        i += 1;
    }
    assert(all.skip(all.len() as int) =~= seq![]);
    assert(text::text_pairs(r@) + effective(
        seq![],
        set + keys_of(text::text_pairs(r@)),
    ) =~= text::text_pairs(r@));
    r
}

/// What the first line that sets a key amounts to: it does, and none before it
/// does.
pub proof fn lemma_line_setting(lines: Seq<Seq<char>>, key: Seq<char>)
    ensures
        line_setting(lines, key) <= lines.len(),
        line_setting(lines, key) < lines.len() ==> sets(
            lines[line_setting(lines, key) as int],
            key,
        ),
        forall|i: int| 0 <= i < line_setting(lines, key) ==> !sets(#[trigger] lines[i], key),
    decreases lines.len(),
{
    if lines.len() > 0 && !sets(lines[0], key) {
        lemma_line_setting(lines.drop_first(), key);
        assert forall|i: int| 0 <= i < line_setting(lines, key) implies !sets(
            #[trigger] lines[i],
            key,
        ) by {
            if i > 0 {
                assert(lines.drop_first()[i - 1] == lines[i]);
            }
        }
    }
}

/// A line that sets the key, with none before it that does, is the first.
pub proof fn lemma_line_setting_is(lines: Seq<Seq<char>>, key: Seq<char>, p: int)
    requires
        0 <= p <= lines.len(),
        forall|i: int| 0 <= i < p ==> !sets(#[trigger] lines[i], key),
        p == lines.len() || sets(lines[p], key),
    ensures
        line_setting(lines, key) == p,
{
    lemma_line_setting(lines, key);
    let q = line_setting(lines, key) as int;
    if p < q {
        assert(!sets(lines[p], key));
    }
    if q < p {
        assert(!sets(lines[q], key));
    }
}

/// Sets `key` to `value` in the lines.
fn set_entry(lines: &mut Vec<String>, key: &str, value: &str)
    ensures
        text::texts(final(lines)@) == with_entry(text::texts(old(lines)@), key@, value@),
{
    proof {
        reveal_strlit("=");
        assert("="@ =~= seq!['=']);
    }
    let prefix = text::concat2(key, "=");
    let entry = text::concat2(prefix.as_str(), value);
    let ghost all = text::texts(lines@);
    let mut i: usize = 0;
    while i < lines.len() && !text::starts_with(text::trim(lines[i].as_str()), prefix.as_str())
        invariant
            i <= lines.len(),
            all == text::texts(lines@),
            prefix@ == key@ + seq!['='],
            forall|j: int| 0 <= j < i ==> !sets(#[trigger] all[j], key@),
        decreases lines.len() - i,
    {
        assert(all[i as int] == lines@[i as int]@);
        i += 1;
    }
    proof {
        if i < lines.len() {
            assert(all[i as int] == lines@[i as int]@);
        }
        lemma_line_setting_is(all, key@, i as int);
    }
    if i < lines.len() {
        lines.set(i, entry);
        assert(text::texts(lines@) =~= all.update(i as int, line_for(key@, value@)));
    } else {
        lines.push(entry);
        assert(text::texts(lines@) =~= all.push(line_for(key@, value@)));
    }
}

/// The text of a `.env` file with the given pairs merged into it; `existing`
/// is its text so far, empty if there is no file yet.
pub fn write_env_file(existing: &str, pairs: &[(&str, &str)]) -> (r: String)
    ensures
        r@ == file_of(merged(text::lines_of(existing@), pair_texts(pairs@))),
{
    let mut lines = text::lines(existing);
    let ghost all = pair_texts(pairs@);
    let ghost start = text::lines_of(existing@);
    let mut i: usize = 0;
    assert(all.skip(0) =~= all);
    while i < pairs.len()
        invariant
            i <= pairs.len(),
            all == pair_texts(pairs@),
            merged(start, all) == merged(text::texts(lines@), all.skip(i as int)),
        decreases pairs.len() - i,
    {
        let (key, value) = pairs[i];
        assert(all.skip(i as int)[0] == (key@, value@));
        assert(all.skip(i as int).drop_first() =~= all.skip(i + 1));
        set_entry(&mut lines, key, value);
        i += 1;
    }
    assert(all.skip(all.len() as int) =~= seq![]);
    proof {
        reveal_strlit("\n");
        assert("\n"@ =~= seq!['\n']);
    }
    let mut content = text::join(&lines, "\n");
    let n = content.as_str().unicode_len();
    if n == 0 || content.as_str().get_char(n - 1) != '\n' {
        content.append("\n");
        assert(content@ =~= text::joined(text::texts(lines@), seq!['\n']).push('\n'));
    }
    content
}

} // verus!
