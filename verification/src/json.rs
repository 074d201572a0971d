//! JSON, as `serde_json` reads and writes it.
//!
//! A value is known here by its JSON text, and an object by the texts of its
//! fields. Reading and writing are `serde_json`'s own work; the items marked
//! `external_body` state what is relied on.

use crate::number;
use crate::text;
use vstd::prelude::*;

verus! {

#[verifier::external_type_specification]
#[verifier::external_body]
pub struct ExValue(serde_json::Value);

#[verifier::external_type_specification]
#[verifier::external_body]
#[verifier::reject_recursive_types(K)]
#[verifier::reject_recursive_types(V)]
pub struct ExObject<K, V>(serde_json::Map<K, V>);

/// What a JSON value holds: its text, without white space between the tokens.
pub uninterp spec fn value_text(v: serde_json::Value) -> Seq<char>;

/// What a JSON object holds: the text of each field's value, by the field's
/// name.
pub uninterp spec fn object_fields(
    m: serde_json::Map<String, serde_json::Value>,
) -> Map<Seq<char>, Seq<char>>;

/// The items of the JSON array that a text writes, each by its text, as
/// `serde_json::from_str` reads it into a `Vec<Value>`; nothing for any other
/// text.
pub uninterp spec fn json_items(s: Seq<char>) -> Option<Seq<Seq<char>>>;

/// The JSON document that a text writes, as `serde_json::from_str` reads it
/// into a `Value`; nothing for a text that is not JSON.
pub uninterp spec fn json_document(s: Seq<char>) -> Option<DocumentModel>;

/// The text that `serde_json::to_string_pretty` writes for a document.
pub uninterp spec fn pretty_text(d: DocumentModel) -> Seq<char>;

/// The text that `serde_json`'s pretty serializer writes for an object with
/// these fields in this order.
pub uninterp spec fn listing_text(fields: Seq<(Seq<char>, Seq<char>)>) -> Seq<char>;

/// A JSON document, apart from how it is laid out: an object with its fields,
/// or the text of any other value.
pub enum DocumentModel {
    Object(Map<Seq<char>, Seq<char>>),
    Other(Seq<char>),
}

/// A JSON document.
pub enum Document {
    /// An object.
    Object(serde_json::Map<String, serde_json::Value>),
    /// Any other value.
    Other(serde_json::Value),
}

impl View for Document {
    type V = DocumentModel;

    open spec fn view(&self) -> DocumentModel {
        match *self {
            Document::Object(m) => DocumentModel::Object(object_fields(m)),
            Document::Other(v) => DocumentModel::Other(value_text(v)),
        }
    }
}

/// A lower-case hexadecimal digit.
pub open spec fn hex_digit(n: int) -> char {
    if n < 10 {
        (0x30 + n) as char
    } else {
        (0x57 + n) as char
    }
}

/// A character as it stands inside a JSON string.
pub open spec fn escaped(c: char) -> Seq<char> {
    let n = c as u32 as int;
    if c == '"' || c == '\\' {
        seq!['\\', c]
    } else if n == 0x8 {
        seq!['\\', 'b']
    } else if n == 0x9 {
        seq!['\\', 't']
    } else if n == 0xa {
        seq!['\\', 'n']
    } else if n == 0xc {
        seq!['\\', 'f']
    } else if n == 0xd {
        seq!['\\', 'r']
    } else if n < 0x20 {
        seq!['\\', 'u', '0', '0', hex_digit(n / 16), hex_digit(n % 16)]
    } else {
        seq![c]
    }
}

/// A text as it stands inside a JSON string.
pub open spec fn escaped_text(s: Seq<char>) -> Seq<char>
    decreases s.len(),
{
    if s.len() == 0 {
        seq![]
    } else {
        escaped(s[0]) + escaped_text(s.drop_first())
    }
}

/// The text of a JSON string.
pub open spec fn string_text(s: Seq<char>) -> Seq<char> {
    seq!['"'] + escaped_text(s) + seq!['"']
}

/// The string that a JSON value is, given its text; nothing if it is none.
pub open spec fn string_of(t: Seq<char>) -> Option<Seq<char>> {
    if exists|s: Seq<char>| t == #[trigger] string_text(s) {
        Some(choose|s: Seq<char>| t == #[trigger] string_text(s))
    } else {
        None
    }
}

/// The fields of the empty object.
pub open spec fn no_fields() -> Map<Seq<char>, Seq<char>> {
    Map::empty()
}

/// How deeply arrays and objects may be nested inside the fields of an object
/// that is to be read back.
pub const MAX_NESTING: u32 = 126;

/// Whether the rest of a JSON text has no fraction in it and is nested no more
/// deeply than is read back, where `depth` arrays and objects are open and
/// `quoted` tells whether a string is.
pub open spec fn plain_from(t: Seq<char>, depth: nat, quoted: bool) -> bool
    decreases t.len(),
{
    if t.len() == 0 {
        true
    } else if quoted {
        if t[0] == '\\' && t.len() > 1 {
            plain_from(t.skip(2), depth, true)
        } else {
            plain_from(t.skip(1), depth, t[0] != '"')
        }
    } else if t[0] == '"' {
        plain_from(t.skip(1), depth, true)
    } else if t[0] == '[' || t[0] == '{' {
        depth < MAX_NESTING && plain_from(t.skip(1), depth + 1, false)
    } else if (t[0] == ']' || t[0] == '}') && depth > 0 {
        plain_from(t.skip(1), (depth - 1) as nat, false)
    } else if t[0] == '.' || (number::digit_value(t[0]) >= 0 && t.len() > 1 && t[1] == 'e') {
        false
    } else {
        plain_from(t.skip(1), depth, false)
    }
}

/// Whether the text of a JSON value has no fraction in it and is not nested too
/// deeply to be read back.
pub open spec fn plain_text(t: Seq<char>) -> bool {
    plain_from(t, 0, false)
}

/// Whether every field of an object is plain.
pub open spec fn plain(fields: Map<Seq<char>, Seq<char>>) -> bool {
    forall|k: Seq<char>| #[trigger] fields.contains_key(k) ==> plain_text(fields[k])
}

/// Whether a document is an object of plain fields.
pub open spec fn is_plain(d: DocumentModel) -> bool {
    match d {
        DocumentModel::Object(fields) => plain(fields),
        DocumentModel::Other(_) => false,
    }
}

/// Whether two objects are the same but for fractions and what is nested too
/// deeply: they have the same names, the same fields are plain, and those are
/// equal.
pub open spec fn alike(a: Map<Seq<char>, Seq<char>>, b: Map<Seq<char>, Seq<char>>) -> bool {
    &&& forall|k: Seq<char>| #[trigger] a.contains_key(k) <==> b.contains_key(k)
    &&& forall|k: Seq<char>| #[trigger]
        a.contains_key(k) ==> {
            &&& plain_text(a[k]) <==> plain_text(b[k])
            &&& plain_text(a[k]) ==> a[k] == b[k]
        }
}

/// Whether a document is what an object with these fields may be read back as,
/// if it is read back: an object that is alike.
pub open spec fn may_be_read_as(
    fields: Map<Seq<char>, Seq<char>>,
    back: Option<DocumentModel>,
) -> bool {
    match back {
        Some(DocumentModel::Object(b)) => alike(fields, b),
        Some(DocumentModel::Other(_)) => false,
        None => true,
    }
}

/// The object that a list of fields makes; of a name that comes twice the last
/// one counts.
pub open spec fn listed(fields: Seq<(Seq<char>, Seq<char>)>) -> Map<Seq<char>, Seq<char>>
    decreases fields.len(),
{
    if fields.len() == 0 {
        no_fields()
    } else {
        listed(fields.drop_last()).insert(fields.last().0, fields.last().1)
    }
}

/// Whether every field of a list is plain.
pub open spec fn plain_list(fields: Seq<(Seq<char>, Seq<char>)>) -> bool {
    forall|i: int| 0 <= i < fields.len() ==> plain_text((#[trigger] fields[i]).1)
}

/// The texts of some JSON values.
pub open spec fn value_texts(v: Seq<serde_json::Value>) -> Seq<Seq<char>> {
    Seq::new(v.len(), |i: int| value_text(v[i]))
}

/// The names and the texts of a list of fields.
pub open spec fn field_texts(fields: Seq<(String, serde_json::Value)>) -> Seq<
    (Seq<char>, Seq<char>),
> {
    Seq::new(fields.len(), |i: int| (fields[i].0@, value_text(fields[i].1)))
}

/// The texts of an optional list of JSON values.
pub open spec fn option_items(v: Option<Vec<serde_json::Value>>) -> Option<Seq<Seq<char>>> {
    match v {
        Some(items) => Some(value_texts(items@)),
        None => None,
    }
}

/// The number of an optional integer.
pub open spec fn option_integer(n: Option<i64>) -> Option<int> {
    match n {
        Some(n) => Some(n as int),
        None => None,
    }
}

/// The model of an optional document.
pub open spec fn option_document(d: Option<Document>) -> Option<DocumentModel> {
    match d {
        Some(d) => Some(d@),
        None => None,
    }
}

/// Calls `serde_json::from_str` for a `Vec<Value>`: gives the items if the text
/// is a JSON array. What it reads depends on the text alone.
#[verifier::external_body]
pub(crate) fn parse_items(s: &str) -> (r: Option<Vec<serde_json::Value>>)
    ensures
        option_items(r) == json_items(s@),
{
    serde_json::from_str::<Vec<serde_json::Value>>(s).ok()
}

/// Calls `serde_json::from_str` for a `Value`: gives the document if the text
/// is JSON. What it reads depends on the text alone.
#[verifier::external_body]
pub(crate) fn parse_document(s: &str) -> (r: Option<Document>)
    ensures
        option_document(r) == json_document(s@),
{
    match serde_json::from_str::<serde_json::Value>(s) {
        Ok(serde_json::Value::Object(m)) => Some(Document::Object(m)),
        Ok(v) => Some(Document::Other(v)),
        Err(_) => None,
    }
}

/// Calls `serde_json::to_string`, which cannot fail on a `Value`: the text of
/// the value.
#[verifier::external_body]
pub(crate) fn value_json(v: &serde_json::Value) -> (r: String)
    ensures
        r@ == value_text(*v),
{
    serde_json::to_string(v).unwrap()
}

/// Calls `serde_json::to_string_pretty`, which cannot fail on a `Value`: the
/// text depends on the document alone, since an object keeps its fields in the
/// order of their names. An object of plain fields is read back from it as it
/// was. Any other object, if it is read back at all, is an object with the same
/// names and the same plain fields; no more is said of it, because reading
/// stops at a depth of 127 and may round fractions.
#[verifier::external_body]
pub(crate) fn pretty(d: &Document) -> (r: String)
    ensures
        r@ == pretty_text(d@),
        is_plain(d@) ==> json_document(r@) == Some(d@),
        d@ matches DocumentModel::Object(fields) ==> may_be_read_as(fields, json_document(r@)),
{
    match d {
        Document::Object(m) => serde_json::to_string_pretty(m).unwrap(),
        Document::Other(v) => serde_json::to_string_pretty(v).unwrap(),
    }
}

/// Calls `serde::Serializer::collect_map` on `serde_json::Serializer::pretty`,
/// which cannot fail on strings and values: the object with the fields in the
/// order given. The text depends on the fields alone, and plain fields are read
/// back from it as they were.
#[verifier::external_body]
pub(crate) fn pretty_listing(fields: Vec<(String, serde_json::Value)>) -> (r: String)
    ensures
        r@ == listing_text(field_texts(fields@)),
        plain_list(field_texts(fields@)) ==> json_document(r@) == Some(
            DocumentModel::Object(listed(field_texts(fields@))),
        ),
{
    let mut out = Vec::new();
    let mut serializer = serde_json::Serializer::pretty(&mut out);
    serde::Serializer::collect_map(&mut serializer, fields).unwrap();
    String::from_utf8(out).unwrap()
}

/// Calls `serde_json::Value::as_str`: the string, if the value is one.
#[verifier::external_body]
fn value_str(v: &serde_json::Value) -> (r: Option<String>)
    ensures
        match r {
            Some(s) => value_text(*v) == string_text(s@),
            None => forall|s: Seq<char>| value_text(*v) != #[trigger] string_text(s),
        },
{
    v.as_str().map(|s| s.to_string())
}

/// Calls `serde_json::Value::as_i64`: the number, if the value is an integer
/// that an `i64` holds.
#[verifier::external_body]
pub(crate) fn value_integer(v: &serde_json::Value) -> (r: Option<i64>)
    ensures
        option_integer(r) == number::integer_of(value_text(*v), i64::MIN as int, i64::MAX as int),
{
    v.as_i64()
}

/// Calls `serde_json::Map::new`: an object without fields.
#[verifier::external_body]
pub(crate) fn empty_object() -> (r: serde_json::Map<String, serde_json::Value>)
    ensures
        object_fields(r) == no_fields(),
{
    serde_json::Map::new()
}

/// Calls `serde_json::Map::contains_key`: whether the object has the field.
#[verifier::external_body]
pub(crate) fn has_field(m: &serde_json::Map<String, serde_json::Value>, key: &str) -> (r: bool)
    ensures
        r == object_fields(*m).contains_key(key@),
{
    m.contains_key(key)
}

/// Calls `serde_json::Map::get` and clones what it finds: the value of the
/// field, if the object has it.
#[verifier::external_body]
pub(crate) fn field(
    m: &serde_json::Map<String, serde_json::Value>,
    key: &str,
) -> (r: Option<serde_json::Value>)
    ensures
        r is Some <==> object_fields(*m).contains_key(key@),
        r matches Some(v) ==> value_text(v) == object_fields(*m)[key@],
{
    m.get(key).cloned()
}

/// Calls `serde_json::Map::insert`: the field gets the value, and every other
/// field stays.
#[verifier::external_body]
pub(crate) fn set_field(
    m: &mut serde_json::Map<String, serde_json::Value>,
    key: &str,
    v: serde_json::Value,
)
    ensures
        object_fields(*final(m)) == object_fields(*old(m)).insert(key@, value_text(v)),
{
    m.insert(key.to_string(), v);
}

/// Calls `serde_json::Value::from` for a string: the JSON string.
#[verifier::external_body]
pub(crate) fn string_value(s: &str) -> (r: serde_json::Value)
    ensures
        value_text(r) == string_text(s@),
{
    serde_json::Value::from(s)
}

/// Calls `serde_json::Value::from` for an integer: the JSON number.
#[verifier::external_body]
pub(crate) fn integer_value(n: i64) -> (r: serde_json::Value)
    ensures
        value_text(r) == number::integer_text(n as int),
{
    serde_json::Value::from(n)
}

/// The two characters behind a backslash, or the character itself, tell which
/// character stands at the front of a JSON string.
proof fn lemma_escaped_front(a: char, b: char, x: Seq<char>, y: Seq<char>)
    requires
        escaped(a) + x == escaped(b) + y,
    ensures
        a == b,
        x == y,
{
    let s = escaped(a) + x;
    let t = escaped(b) + y;
    let p = escaped(a);
    let q = escaped(b);
    assert(forall|i: int| 0 <= i < p.len() ==> s[i] == p[i]);
    assert(forall|i: int| 0 <= i < q.len() ==> t[i] == q[i]);
    assert(s[0] == p[0] && t[0] == q[0]);
    if p.len() > 1 && q.len() > 1 {
        assert(s[1] == p[1] && t[1] == q[1]);
        if p.len() > 2 && q.len() > 2 {
            assert(s[4] == p[4] && t[4] == q[4]);
            assert(s[5] == p[5] && t[5] == q[5]);
        }
    }
    assert(a == b);
    assert(x =~= s.skip(p.len() as int));
    assert(y =~= t.skip(q.len() as int));
}

proof fn lemma_escaped_text_injective(a: Seq<char>, b: Seq<char>)
    requires
        escaped_text(a) == escaped_text(b),
    ensures
        a == b,
    decreases a.len(),
{
    if a.len() == 0 {
        assert(b.len() == 0) by {
            if b.len() > 0 {
                assert(escaped_text(b).len() >= escaped(b[0]).len());
            }
        }
        assert(a =~= b);
    } else {
        assert(escaped_text(a).len() >= escaped(a[0]).len());
        assert(b.len() > 0);
        lemma_escaped_front(
            a[0],
            b[0],
            escaped_text(a.drop_first()),
            escaped_text(b.drop_first()),
        );
        lemma_escaped_text_injective(a.drop_first(), b.drop_first());
        assert(a =~= seq![a[0]] + a.drop_first());
        assert(b =~= seq![b[0]] + b.drop_first());
    }
}

/// A JSON string is the text of one string only.
pub proof fn lemma_string_of(s: Seq<char>)
    ensures
        string_of(string_text(s)) == Some(s),
{
    let t = string_text(s);
    let other = choose|o: Seq<char>| t == #[trigger] string_text(o);
    assert(string_text(other) == t);
    let n = t.len() as int;
    assert(t.subrange(1, n - 1) =~= escaped_text(s));
    assert(string_text(other).subrange(1, n - 1) =~= escaped_text(other));
    lemma_escaped_text_injective(s, other);
}

proof fn lemma_escaped_plain(s: Seq<char>)
    ensures
        plain_from(escaped_text(s) + seq!['"'], 0, true),
    decreases s.len(),
{
    let end = seq!['"'];
    let t = escaped_text(s) + end;
    if s.len() == 0 {
        assert(t.skip(1) =~= seq![]);
        assert(plain_from(t.skip(1), 0, false));
    } else {
        let rest = escaped_text(s.drop_first()) + end;
        let e = escaped(s[0]);
        lemma_escaped_plain(s.drop_first());
        assert(t =~= e + rest);
        assert(t[0] == e[0]);
        if e.len() == 1 {
            assert(t.skip(1) =~= rest);
            assert(t[0] != '"' && t[0] != '\\');
        } else if e.len() == 2 {
            assert(t.skip(2) =~= rest);
        } else {
            let u = t.skip(2);
            assert(u[0] == e[2] && u.skip(1)[0] == e[3] && u.skip(2)[0] == e[4] && u.skip(3)[0]
                == e[5]);
            assert(u.skip(1).skip(1) =~= u.skip(2));
            assert(u.skip(2).skip(1) =~= u.skip(3));
            assert(u.skip(3).skip(1) =~= rest);
            assert(plain_from(u.skip(3), 0, true));
            assert(plain_from(u.skip(2), 0, true));
            assert(plain_from(u.skip(1), 0, true));
            assert(plain_from(u, 0, true));
        }
    }
}

/// A JSON string is plain.
pub proof fn lemma_string_plain(s: Seq<char>)
    ensures
        plain_text(string_text(s)),
{
    lemma_escaped_plain(s);
    assert(string_text(s).skip(1) =~= escaped_text(s) + seq!['"']);
}

proof fn lemma_digits_plain(t: Seq<char>)
    requires
        forall|i: int| 0 <= i < t.len() ==> number::digit_value(#[trigger] t[i]) >= 0,
    ensures
        plain_from(t, 0, false),
    decreases t.len(),
{
    if t.len() > 0 {
        assert(number::digit_value(t[0]) >= 0);
        if t.len() > 1 {
            assert(number::digit_value(t[1]) >= 0);
        }
        assert forall|i: int| 0 <= i < t.skip(1).len() implies number::digit_value(
            #[trigger] t.skip(1)[i],
        ) >= 0 by {
            assert(t.skip(1)[i] == t[i + 1]);
        }
        lemma_digits_plain(t.skip(1));
    }
}

/// An integer is plain.
pub proof fn lemma_integer_plain(n: int)
    ensures
        plain_text(number::integer_text(n)),
{
    let size = if n < 0 {
        (-n) as nat
    } else {
        n as nat
    };
    number::lemma_natural_digits(size);
    lemma_digits_plain(number::natural_text(size));
    if n < 0 {
        assert(number::integer_text(n).skip(1) =~= number::natural_text(size));
    }
}

/// A text that writes an integer is plain.
pub proof fn lemma_integer_of_plain(t: Seq<char>, low: int, high: int)
    requires
        number::integer_of(t, low, high) is Some,
    ensures
        plain_text(t),
{
    if number::all_digits(t) {
        lemma_digits_plain(t);
    } else {
        assert(t.drop_first() =~= t.skip(1));
        lemma_digits_plain(t.skip(1));
    }
}

/// A field at the end of a list is put into the object that the list makes.
pub proof fn lemma_listed_push(
    fields: Seq<(Seq<char>, Seq<char>)>,
    field: (Seq<char>, Seq<char>),
)
    ensures
        listed(fields.push(field)) == listed(fields).insert(field.0, field.1),
{
    assert(fields.push(field).drop_last() =~= fields);
}

/// The string that a value is, if it is one.
pub(crate) fn value_string(v: &serde_json::Value) -> (r: Option<String>)
    ensures
        text::option_text(r) == string_of(value_text(*v)),
{
    let r = value_str(v);
    proof {
        if r is Some {
            lemma_string_of(r->0@);
        }
    }
    r
}

} // verus!
