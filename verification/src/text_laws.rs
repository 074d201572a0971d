//! What holds of texts and numbers: what stripping leaves, where lines end, how
//! parts are joined, and which texts are which numbers.

use crate::json;
use crate::number;
use crate::text;
use vstd::prelude::*;

verus! {

/// Whether `s` is nothing but white space.
pub open spec fn all_white(s: Seq<char>) -> bool {
    forall|i: int| 0 <= i < s.len() ==> text::white_space(#[trigger] s[i])
}

/// Whether `s` is nothing but double quotes.
pub open spec fn all_quotes(s: Seq<char>) -> bool {
    forall|i: int| 0 <= i < s.len() ==> #[trigger] s[i] == '"'
}

proof fn lemma_strip_front(a: Seq<char>, t: Seq<char>, m: text::Margin)
    requires
        forall|i: int| 0 <= i < a.len() ==> text::in_margin(#[trigger] a[i], m),
    ensures
        text::strip_front(a + t, m) == text::strip_front(t, m),
    decreases a.len(),
{
    if a.len() == 0 {
        assert(a + t =~= t);
    } else {
        let rest = a.drop_first();
        assert forall|i: int| 0 <= i < rest.len() implies text::in_margin(
            #[trigger] rest[i],
            m,
        ) by {
            assert(rest[i] == a[i + 1]);
        }
        lemma_strip_front(rest, t, m);
        assert((a + t)[0] == a[0]);
        assert((a + t).drop_first() =~= rest + t);
    }
}

proof fn lemma_strip_back(t: Seq<char>, b: Seq<char>, m: text::Margin)
    requires
        forall|i: int| 0 <= i < b.len() ==> text::in_margin(#[trigger] b[i], m),
    ensures
        text::strip_back(t + b, m) == text::strip_back(t, m),
    decreases b.len(),
{
    if b.len() == 0 {
        assert(t + b =~= t);
    } else {
        let rest = b.drop_last();
        assert forall|i: int| 0 <= i < rest.len() implies text::in_margin(
            #[trigger] rest[i],
            m,
        ) by {
            assert(rest[i] == b[i]);
        }
        lemma_strip_back(t, rest, m);
        assert((t + b).last() == b[b.len() - 1]);
        assert((t + b).drop_last() =~= t + rest);
    }
}

proof fn lemma_stripped(a: Seq<char>, mid: Seq<char>, b: Seq<char>, m: text::Margin)
    requires
        forall|i: int| 0 <= i < a.len() ==> text::in_margin(#[trigger] a[i], m),
        forall|i: int| 0 <= i < b.len() ==> text::in_margin(#[trigger] b[i], m),
        mid.len() > 0 ==> !text::in_margin(mid[0], m) && !text::in_margin(mid.last(), m),
    ensures
        text::stripped(a + mid + b, m) == mid,
{
    let none = Seq::<char>::empty();
    assert(a + mid + b =~= a + (mid + b));
    lemma_strip_front(a, mid + b, m);
    if mid.len() > 0 {
        assert((mid + b)[0] == mid[0]);
        lemma_strip_back(mid, b, m);
    } else {
        assert(mid + b =~= b + none);
        lemma_strip_front(b, none, m);
        assert(text::strip_front(none, m) =~= none);
        assert(text::strip_back(none, m) =~= none);
        assert(mid =~= none);
    }
}

/// Trimming takes all white space off the two ends, and nothing else.
pub proof fn trimming_takes_the_white_space_alone(a: Seq<char>, mid: Seq<char>, b: Seq<char>)
    requires
        all_white(a),
        all_white(b),
        mid.len() > 0 ==> !text::white_space(mid[0]) && !text::white_space(mid.last()),
    ensures
        text::trimmed(a + mid + b) == mid,
{
    lemma_stripped(a, mid, b, text::Margin::WhiteSpace);
}

/// Stripping quotes takes all double quotes off the two ends, and nothing else.
pub proof fn stripping_takes_the_quotes_alone(a: Seq<char>, mid: Seq<char>, b: Seq<char>)
    requires
        all_quotes(a),
        all_quotes(b),
        mid.len() > 0 ==> mid[0] != '"' && mid.last() != '"',
    ensures
        text::stripped(a + mid + b, text::Margin::Quote) == mid,
{
    lemma_stripped(a, mid, b, text::Margin::Quote);
}

/// A text begins with a prefix exactly if it is the prefix and something behind
/// it.
pub proof fn a_prefix_is_what_a_text_begins_with(s: Seq<char>, prefix: Seq<char>)
    ensures
        text::begins_with(s, prefix) <==> exists|rest: Seq<char>| s == #[trigger] (prefix + rest),
        forall|rest: Seq<char>| text::begins_with(#[trigger] (prefix + rest), prefix),
{
    if text::begins_with(s, prefix) {
        let n = prefix.len() as int;
        assert(s =~= prefix + s.skip(n));
    }
    assert forall|rest: Seq<char>| text::begins_with(#[trigger] (prefix + rest), prefix) by {
        assert((prefix + rest).subrange(0, prefix.len() as int) =~= prefix);
    }
}

/// The position of a character is the first place where it stands, or the end.
pub proof fn a_character_is_found_where_it_first_stands(a: Seq<char>, c: char, b: Seq<char>)
    requires
        !a.contains(c),
    ensures
        text::position(a + seq![c] + b, c) == a.len(),
        text::position(a, c) == a.len(),
{
    let s = a + seq![c] + b;
    assert forall|i: int| 0 <= i < a.len() implies s[i] != c && a[i] != c by {
        assert(a.contains(a[i]));
    }
    text::lemma_position_is(s, c, a.len() as int);
    text::lemma_position_is(a, c, a.len() as int);
}

/// A line ends at a line feed, or at a carriage return right before it, and the
/// lines behind it are those of the rest.
pub proof fn a_line_ends_at_a_line_feed(line: Seq<char>, rest: Seq<char>)
    requires
        !line.contains('\n'),
    ensures
        text::lines_of(line + seq!['\r', '\n'] + rest) == seq![line] + text::lines_of(rest),
        !(line.len() > 0 && line.last() == '\r') ==> text::lines_of(line + seq!['\n'] + rest)
            == seq![line] + text::lines_of(rest),
        line.len() > 0 ==> text::lines_of(line) == seq![line],
        line.len() == 0 ==> text::lines_of(line) == Seq::<Seq<char>>::empty(),
{
    let long = line.push('\r');
    assert(!long.contains('\n')) by {
        if long.contains('\n') {
            let i = choose|i: int| 0 <= i < long.len() && long[i] == '\n';
            assert(line[i] == '\n');
        }
    }
    lemma_line_end(long, rest);
    assert(long + seq!['\n'] + rest =~= line + seq!['\r', '\n'] + rest);
    assert(long.drop_last() =~= line);
    lemma_line_end(line, rest);
    a_character_is_found_where_it_first_stands(line, '\n', rest);
}

proof fn lemma_line_end(line: Seq<char>, rest: Seq<char>)
    requires
        !line.contains('\n'),
    ensures
        text::lines_of(line + seq!['\n'] + rest) == seq![text::without_carriage_return(line)]
            + text::lines_of(rest),
{
    let s = line + seq!['\n'] + rest;
    let n = line.len() as int;
    a_character_is_found_where_it_first_stands(line, '\n', rest);
    assert(s.subrange(0, n) =~= line);
    assert(s.subrange(n + 1, s.len() as int) =~= rest);
}

/// Joined parts stand one behind the other, with the separator between each two
/// and nowhere else.
pub proof fn parts_are_joined_in_order(
    parts: Seq<Seq<char>>,
    part: Seq<char>,
    separator: Seq<char>,
)
    ensures
        text::joined(Seq::<Seq<char>>::empty(), separator) == Seq::<char>::empty(),
        text::joined(seq![part], separator) == part,
        parts.len() > 0 ==> text::joined(parts.push(part), separator) == text::joined(
            parts,
            separator,
        ) + separator + part,
        parts.len() > 0 ==> text::joined(seq![part] + parts, separator) == part + separator
            + text::joined(parts, separator),
{
    text::lemma_joined_push(parts, part, separator);
    assert((seq![part] + parts).drop_first() =~= parts);
}

/// Whether `c` is a decimal digit.
pub open spec fn is_digit(c: char) -> bool {
    0x30 <= c as u32 <= 0x39
}

/// Whether `s` is nothing but decimal digits.
pub open spec fn only_digits(s: Seq<char>) -> bool {
    forall|i: int| 0 <= i < s.len() ==> is_digit(#[trigger] s[i])
}

/// What a row of digits is worth behind digits that are worth `before`.
pub open spec fn worth(before: int, s: Seq<char>) -> int
    decreases s.len(),
{
    if s.len() == 0 {
        before
    } else {
        worth(before * 10 + (s[0] as u32 - 0x30), s.drop_first())
    }
}

proof fn lemma_worth_push(before: int, s: Seq<char>, c: char)
    ensures
        worth(before, s.push(c)) == worth(before, s) * 10 + (c as u32 - 0x30),
    decreases s.len(),
{
    if s.len() == 0 {
        assert(s.push(c).drop_first() =~= seq![]);
        assert(worth(before * 10 + (c as u32 - 0x30), seq![]) == before * 10 + (c as u32
            - 0x30));
    } else {
        assert(s.push(c).drop_first() =~= s.drop_first().push(c));
        lemma_worth_push(before * 10 + (s[0] as u32 - 0x30), s.drop_first(), c);
    }
}

proof fn lemma_worth(s: Seq<char>)
    requires
        only_digits(s),
    ensures
        number::digits_value(s) == worth(0, s),
    decreases s.len(),
{
    if s.len() > 0 {
        let t = s.drop_last();
        assert forall|i: int| 0 <= i < t.len() implies is_digit(#[trigger] t[i]) by {
            assert(t[i] == s[i]);
        }
        lemma_worth(t);
        assert(is_digit(s[s.len() - 1]));
        lemma_worth_push(0, t, s.last());
        assert(t.push(s.last()) =~= s);
    }
}

proof fn lemma_only_digits(s: Seq<char>)
    ensures
        number::all_digits(s) <==> s.len() > 0 && only_digits(s),
{
    if s.len() > 0 && only_digits(s) {
        assert forall|i: int| 0 <= i < s.len() implies number::digit_value(#[trigger] s[i])
            >= 0 by {
            assert(is_digit(s[i]));
        }
    }
    if number::all_digits(s) {
        assert forall|i: int| 0 <= i < s.len() implies is_digit(#[trigger] s[i]) by {
            assert(number::digit_value(s[i]) >= 0);
        }
    }
}

/// A row of digits is read as what it is worth, if that is within the limits; a
/// plus sign in front of it changes nothing, and a minus sign makes it negative
/// where that is allowed.
pub proof fn digits_are_read_as_what_they_are_worth(digits: Seq<char>, low: int, high: int)
    requires
        digits.len() > 0,
        only_digits(digits),
    ensures
        ({
            let n = worth(0, digits);
            &&& number::integer_of(digits, low, high) == (if low <= n <= high {
                Some(n)
            } else {
                None
            })
            &&& number::integer_of(seq!['+'] + digits, low, high) == (if low <= n <= high {
                Some(n)
            } else {
                None
            })
            &&& number::integer_of(seq!['-'] + digits, low, high) == (if low < 0 && low <= -n
                <= high {
                Some(-n)
            } else {
                None
            })
        }),
{
    lemma_worth(digits);
    lemma_only_digits(digits);
    assert(is_digit(digits[0]));
    let plus = seq!['+'] + digits;
    let minus = seq!['-'] + digits;
    assert(plus.drop_first() =~= digits);
    assert(minus.drop_first() =~= digits);
    assert(plus[0] == '+' && minus[0] == '-');
    assert(!number::all_digits(minus)) by {
        assert(number::digit_value(minus[0]) < 0);
    }
}

/// A text with anything but digits in it, apart from a sign in front, is no
/// number, nor is one without a digit.
pub proof fn only_digits_are_read(s: Seq<char>, low: int, high: int)
    requires
        s.len() <= 1 ==> !only_digits(s) || s.len() == 0,
        s.len() > 1 ==> !only_digits(s.drop_first()) || !(s[0] == '+' || s[0] == '-' || is_digit(
            s[0],
        )),
    ensures
        number::integer_of(s, low, high) is None,
{
    if number::integer_of(s, low, high) is Some {
        let rest = s.drop_first();
        if number::all_digits(s) {
            lemma_only_digits(s);
            assert(is_digit(s[0]));
            assert forall|i: int| 0 <= i < rest.len() implies is_digit(#[trigger] rest[i]) by {
                assert(rest[i] == s[i + 1]);
            }
        } else {
            lemma_only_digits(rest);
            assert(rest.len() > 0);
        }
    }
}

/// A number is written in digits that are worth it, without leading zeros, and
/// with a minus sign in front if it is negative.
pub proof fn a_number_is_written_in_digits(n: nat)
    ensures
        ({
            let t = number::natural_text(n);
            &&& t.len() > 0
            &&& only_digits(t)
            &&& worth(0, t) == n
            &&& n > 0 ==> t[0] != '0'
            &&& n == 0 ==> t.len() == 1
            &&& number::integer_text(n as int) == t
            &&& n > 0 ==> number::integer_text(-n) == seq!['-'] + t
        }),
{
    let t = number::natural_text(n);
    number::lemma_natural_digits(n);
    lemma_only_digits(t);
    lemma_worth(t);
    lemma_no_leading_zero(n);
}

proof fn lemma_no_leading_zero(n: nat)
    ensures
        n > 0 ==> number::natural_text(n)[0] != '0',
        number::natural_text(n).len() > 0,
    decreases n,
{
    if n >= 10 {
        lemma_no_leading_zero(n / 10);
    }
}

/// A JSON value is a string exactly if its text is that of the string.
pub proof fn a_string_is_known_by_its_text(t: Seq<char>, s: Seq<char>)
    ensures
        json::string_of(t) == Some(s) <==> t == json::string_text(s),
{
    if t == json::string_text(s) {
        json::lemma_string_of(s);
    }
}

/// The text of a JSON string is the string between quotes, where it has no
/// quote, backslash or control character in it.
pub proof fn a_simple_string_stands_between_quotes(s: Seq<char>)
    requires
        forall|i: int|
            0 <= i < s.len() ==> #[trigger] s[i] != '"' && s[i] != '\\' && s[i] as u32 >= 0x20,
    ensures
        json::string_text(s) == seq!['"'] + s + seq!['"'],
{
    lemma_simple_string(s);
}

proof fn lemma_simple_string(s: Seq<char>)
    requires
        forall|i: int|
            0 <= i < s.len() ==> #[trigger] s[i] != '"' && s[i] != '\\' && s[i] as u32 >= 0x20,
    ensures
        json::escaped_text(s) == s,
    decreases s.len(),
{
    if s.len() > 0 {
        let rest = s.drop_first();
        assert forall|i: int| 0 <= i < rest.len() implies #[trigger] rest[i] != '"' && rest[i]
            != '\\' && rest[i] as u32 >= 0x20 by {
            assert(rest[i] == s[i + 1]);
        }
        lemma_simple_string(rest);
        assert(s[0] != '"');
        assert(json::escaped(s[0]) =~= seq![s[0]]);
        assert(seq![s[0]] + rest =~= s);
    } else {
        assert(json::escaped_text(s) =~= s);
    }
}

/// Of fields in a list, the last one of a name counts, and there are no others.
pub proof fn the_last_field_of_a_name_counts(
    fields: Seq<(Seq<char>, Seq<char>)>,
    name: Seq<char>,
    value: Seq<char>,
    k: Seq<char>,
)
    ensures
        !json::listed(Seq::<(Seq<char>, Seq<char>)>::empty()).contains_key(k),
        json::listed(fields.push((name, value))).contains_key(k) <==> k == name || json::listed(
            fields,
        ).contains_key(k),
        json::listed(fields.push((name, value)))[name] == value,
        k != name && json::listed(fields).contains_key(k) ==> json::listed(
            fields.push((name, value)),
        )[k] == json::listed(fields)[k],
{
    json::lemma_listed_push(fields, (name, value));
}

} // verus!
