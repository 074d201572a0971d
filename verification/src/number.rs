//! Decimal numbers: how they are written and how they are read.

use crate::text;
use vstd::prelude::*;

verus! {

/// The value of a decimal digit, `-1` for any other character.
pub open spec fn digit_value(c: char) -> int {
    let n = c as u32;
    if 0x30 <= n <= 0x39 {
        n - 0x30
    } else {
        -1
    }
}

/// Whether `s` is one or more decimal digits and nothing else.
pub open spec fn all_digits(s: Seq<char>) -> bool {
    s.len() > 0 && forall|i: int| 0 <= i < s.len() ==> digit_value(#[trigger] s[i]) >= 0
}

/// The number that a row of decimal digits writes.
pub open spec fn digits_value(s: Seq<char>) -> int
    decreases s.len(),
{
    if s.len() == 0 {
        0
    } else {
        10 * digits_value(s.drop_last()) + digit_value(s.last())
    }
}

/// The decimal digit of value `n`.
pub open spec fn digit(n: nat) -> char {
    (0x30 + n) as char
}

/// `n` in decimal digits, without leading zeros.
pub open spec fn natural_text(n: nat) -> Seq<char>
    decreases n,
{
    if n < 10 {
        seq![digit(n)]
    } else {
        natural_text(n / 10).push(digit(n % 10))
    }
}

/// `n` in decimal digits, with a minus sign in front if it is negative.
pub open spec fn integer_text(n: int) -> Seq<char> {
    if n < 0 {
        seq!['-'] + natural_text((-n) as nat)
    } else {
        natural_text(n as nat)
    }
}

/// The integer from `low` to `high` that `s` writes: an optional sign, where
/// the minus is one only if `low` is negative, and one or more digits.
pub open spec fn integer_of(s: Seq<char>, low: int, high: int) -> Option<int> {
    let signed = s.len() > 0 && (s[0] == '+' || (s[0] == '-' && low < 0));
    let digits = if signed {
        s.drop_first()
    } else {
        s
    };
    let value = if signed && s[0] == '-' {
        -digits_value(digits)
    } else {
        digits_value(digits)
    };
    if all_digits(digits) && low <= value <= high {
        Some(value)
    } else {
        None
    }
}

/// A row of digits is worth no less than any row it begins with.
proof fn lemma_value_grows(s: Seq<char>, n: int)
    requires
        0 <= n <= s.len(),
        forall|i: int| 0 <= i < s.len() ==> digit_value(#[trigger] s[i]) >= 0,
    ensures
        0 <= digits_value(s.take(n)) <= digits_value(s),
    decreases s.len(),
{
    if n == s.len() {
        assert(s.take(n) =~= s);
        if n > 0 {
            lemma_value_grows(s.drop_last(), n - 1);
            assert(s.drop_last().take(n - 1) =~= s.drop_last());
        }
    } else {
        let t = s.drop_last();
        lemma_value_grows(t, n);
        assert(t.take(n) =~= s.take(n));
    }
}

/// A natural number in decimal is one or more digits, and is worth itself.
pub proof fn lemma_natural_digits(n: nat)
    ensures
        all_digits(natural_text(n)),
        digits_value(natural_text(n)) == n,
    decreases n,
{
    let t = natural_text(n);
    if n < 10 {
        assert(t.drop_last() =~= seq![]);
        assert(digits_value(t.drop_last()) == 0);
    } else {
        let front = natural_text(n / 10);
        lemma_natural_digits(n / 10);
        assert(t.drop_last() =~= front);
        assert forall|i: int| 0 <= i < t.len() implies digit_value(#[trigger] t[i]) >= 0 by {
            if i < front.len() {
                assert(t[i] == front[i]);
            }
        }
    }
}

/// An integer in decimal is read back as it was.
pub proof fn lemma_integer_of(n: int, low: int, high: int)
    requires
        low <= n <= high,
    ensures
        integer_of(integer_text(n), low, high) == Some(n),
{
    let t = integer_text(n);
    if n < 0 {
        lemma_natural_digits((-n) as nat);
        assert(t.drop_first() =~= natural_text((-n) as nat));
    } else {
        lemma_natural_digits(n as nat);
        assert(digit_value(t[0]) >= 0);
    }
}

/// The number that the digits from `from` on write, if all are digits, there
/// is one, and the number is at most `limit`.
fn magnitude(chars: &Vec<char>, from: usize, limit: u32) -> (r: Option<u64>)
    requires
        from <= chars.len(),
    ensures
        ({
            let s = chars@.skip(from as int);
            &&& r is Some <==> all_digits(s) && digits_value(s) <= limit
            &&& r matches Some(v) ==> v == digits_value(s)
        }),
{
    let ghost s = chars@.skip(from as int);
    if from == chars.len() {
        return None;
    }
    let mut total: u64 = 0;
    let mut i: usize = from;
    while i < chars.len()
        invariant
            from <= i <= chars.len(),
            s == chars@.skip(from as int),
            total <= limit,
            total == digits_value(s.take(i - from)),
            forall|j: int| 0 <= j < i - from ==> digit_value(#[trigger] s[j]) >= 0,
        decreases chars.len() - i,
    {
        let n: u32 = chars[i] as u32;
        assert(s[i - from] == chars@[i as int]);
        if n < 0x30 || n > 0x39 {
            assert(digit_value(s[i - from]) < 0);
            return None;
        }
        total = total * 10 + (n - 0x30) as u64;
        assert(s.take(i + 1 - from).drop_last() =~= s.take(i - from));
        i += 1;
        if total > limit as u64 {
            proof {
                if all_digits(s) {
                    lemma_value_grows(s, i - from);
                }
            }
            return None;
        }
    }
    assert(s.take(s.len() as int) =~= s);
    Some(total)
}

/// Reads a decimal `u16`.
pub fn parse_u16(s: &str) -> (r: Option<u16>)
    ensures
        r is Some <==> integer_of(s@, 0, u16::MAX as int) is Some,
        r matches Some(v) ==> integer_of(s@, 0, u16::MAX as int) == Some(v as int),
{
    let chars = text::characters(s);
    let from: usize = if chars.len() > 0 && chars[0] == '+' {
        1
    } else {
        0
    };
    proof {
        assert(s@.skip(0) =~= s@);
        if s@.len() > 0 {
            assert(s@.skip(1) =~= s@.drop_first());
        }
        if all_digits(s@.skip(from as int)) {
            lemma_value_grows(s@.skip(from as int), 0);
        }
    }
    match magnitude(&chars, from, 0xffff) {
        Some(v) => Some(v as u16),
        None => None,
    }
}

/// Reads a decimal `i32`.
pub fn parse_i32(s: &str) -> (r: Option<i32>)
    ensures
        r is Some <==> integer_of(s@, i32::MIN as int, i32::MAX as int) is Some,
        r matches Some(v) ==> integer_of(s@, i32::MIN as int, i32::MAX as int) == Some(v as int),
{
    let chars = text::characters(s);
    let minus = chars.len() > 0 && chars[0] == '-';
    let from: usize = if minus || (chars.len() > 0 && chars[0] == '+') {
        1
    } else {
        0
    };
    let limit: u32 = if minus {
        0x8000_0000
    } else {
        0x7fff_ffff
    };
    proof {
        assert(s@.skip(0) =~= s@);
        if s@.len() > 0 {
            assert(s@.skip(1) =~= s@.drop_first());
        }
        if all_digits(s@.skip(from as int)) {
            lemma_value_grows(s@.skip(from as int), 0);
        }
    }
    match magnitude(&chars, from, limit) {
        Some(v) => if minus {
            Some((0 - v as i64) as i32)
        } else {
            Some(v as i32)
        },
        None => None,
    }
}

/// The decimal digit of value `n`, as a text.
fn digit_text(n: u64) -> (r: &'static str)
    requires
        n < 10,
    ensures
        r@ == seq![digit(n as nat)],
{
    proof {
        reveal_strlit("0");
        reveal_strlit("1");
        reveal_strlit("2");
        reveal_strlit("3");
        reveal_strlit("4");
        reveal_strlit("5");
        reveal_strlit("6");
        reveal_strlit("7");
        reveal_strlit("8");
        reveal_strlit("9");
    }
    let r = match n {
        0 => "0",
        1 => "1",
        2 => "2",
        3 => "3",
        4 => "4",
        5 => "5",
        6 => "6",
        7 => "7",
        8 => "8",
        _ => "9",
    };
    assert(r@ =~= seq![digit(n as nat)]);
    r
}

/// Writes `n` in decimal.
pub fn natural(n: u64) -> (r: String)
    ensures
        r@ == natural_text(n as nat),
    decreases n,
{
    if n < 10 {
        digit_text(n).to_owned()
    } else {
        let mut r = natural(n / 10);
        let last = digit_text(n % 10);
        r.append(last);
        assert(r@ =~= natural_text((n / 10) as nat).push(digit((n % 10) as nat)));
        r
    }
}

/// Writes `n` in decimal.
pub fn integer(n: i64) -> (r: String)
    ensures
        r@ == integer_text(n as int),
{
    if n < 0 {
        proof {
            reveal_strlit("-");
        }
        let size: u64 = (0 - n as i128) as u64;
        let r = text::concat2("-", natural(size).as_str());
        assert(r@ =~= seq!['-'] + natural_text((-n) as nat));
        r
    } else {
        natural(n as u64)
    }
}

} // verus!
