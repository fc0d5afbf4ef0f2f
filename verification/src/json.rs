//! A JSON document as plain values, the shape the provider answer, the request body and a
//! recording being sanitized are read and built in.
//!
//! Numbers keep the form they were written in: a non-negative integer, a negative
//! integer, or any other number as the bit pattern of its `f64` value. An object keeps its
//! entries in order; a key names its first entry.
use serde_json::Value;
use vstd::prelude::*;

verus! {

/// A JSON number.
#[derive(Clone, Copy, Debug, PartialEq, Eq, Structural)]
pub enum JsonNumber {
    /// A non-negative integer.
    Unsigned(u64),
    /// A negative integer.
    Signed(i64),
    /// Any other number, as the bit pattern of its `f64` value.
    Float(u64),
}

/// A JSON value.
#[derive(Debug, PartialEq)]
pub enum Json {
    Null,
    Bool(bool),
    Number(JsonNumber),
    Text(String),
    Array(Vec<Json>),
    Object(Vec<(String, Json)>),
}

/// The mathematical value of a [`Json`]: text as character sequences.
pub enum JsonView {
    Null,
    Bool(bool),
    Number(JsonNumber),
    Text(Seq<char>),
    Array(Seq<JsonView>),
    Object(Seq<(Seq<char>, JsonView)>),
}

pub open spec fn json_view(j: Json) -> JsonView
    decreases j,
{
    match j {
        Json::Null => JsonView::Null,
        Json::Bool(b) => JsonView::Bool(b),
        Json::Number(n) => JsonView::Number(n),
        Json::Text(s) => JsonView::Text(s@),
        Json::Array(items) => JsonView::Array(items_view(items@)),
        Json::Object(entries) => JsonView::Object(entries_view(entries@)),
    }
}

pub open spec fn items_view(s: Seq<Json>) -> Seq<JsonView>
    decreases s,
{
    if s.len() == 0 {
        Seq::empty()
    } else {
        seq![json_view(s[0])] + items_view(s.drop_first())
    }
}

pub open spec fn entries_view(s: Seq<(String, Json)>) -> Seq<(Seq<char>, JsonView)>
    decreases s,
{
    if s.len() == 0 {
        Seq::empty()
    } else {
        seq![(s[0].0@, json_view(s[0].1))] + entries_view(s.drop_first())
    }
}

impl View for Json {
    type V = JsonView;

    open spec fn view(&self) -> JsonView {
        json_view(*self)
    }
}

/// The view of a sequence of values is the sequence of their views.
pub proof fn lemma_items_view(s: Seq<Json>)
    ensures
        items_view(s).len() == s.len(),
        forall|i: int| 0 <= i < s.len() ==> #[trigger] items_view(s)[i] == json_view(s[i]),
    decreases s.len(),
{
    if s.len() > 0 {
        lemma_items_view(s.drop_first());
        assert forall|i: int| 0 <= i < s.len() implies #[trigger] items_view(s)[i] == json_view(
            s[i],
        ) by {
            if i > 0 {
                assert(s.drop_first()[i - 1] == s[i]);
            }
        }
    }
}

/// The view of a sequence of entries is the sequence of their viewed keys and values.
pub proof fn lemma_entries_view(s: Seq<(String, Json)>)
    ensures
        entries_view(s).len() == s.len(),
        forall|i: int|
            0 <= i < s.len() ==> #[trigger] entries_view(s)[i] == (s[i].0@, json_view(s[i].1)),
    decreases s.len(),
{
    if s.len() > 0 {
        lemma_entries_view(s.drop_first());
        assert forall|i: int| 0 <= i < s.len() implies #[trigger] entries_view(s)[i] == (
            s[i].0@,
            json_view(s[i].1),
        ) by {
            if i > 0 {
                assert(s.drop_first()[i - 1] == s[i]);
            }
        }
    }
}

/// Appending a value appends its view.
pub proof fn lemma_items_view_push(s: Seq<Json>, x: Json)
    ensures
        items_view(s.push(x)) == items_view(s).push(json_view(x)),
{
    lemma_items_view(s);
    lemma_items_view(s.push(x));
    assert(items_view(s.push(x)) =~= items_view(s).push(json_view(x)));
}

/// Appending an entry appends its view.
pub proof fn lemma_entries_view_push(s: Seq<(String, Json)>, x: (String, Json))
    ensures
        entries_view(s.push(x)) == entries_view(s).push((x.0@, json_view(x.1))),
{
    lemma_entries_view(s);
    lemma_entries_view(s.push(x));
    assert(entries_view(s.push(x)) =~= entries_view(s).push((x.0@, json_view(x.1))));
}

/// Replacing an entry replaces its view.
pub proof fn lemma_entries_view_update(s: Seq<(String, Json)>, k: int, x: (String, Json))
    requires
        0 <= k < s.len(),
    ensures
        entries_view(s.update(k, x)) == entries_view(s).update(k, (x.0@, json_view(x.1))),
{
    lemma_entries_view(s);
    lemma_entries_view(s.update(k, x));
    assert(entries_view(s.update(k, x)) =~= entries_view(s).update(k, (x.0@, json_view(x.1))));
}

/// A string value.
pub fn text(s: &str) -> (r: Json)
    ensures
        r@ == JsonView::Text(s@),
{
    Json::Text(String::from_str(s))
}

/// Appends the entry `key: value` to an object's entries.
pub fn push_entry(entries: &mut Vec<(String, Json)>, key: &str, value: Json)
    ensures
        entries_view(final(entries)@) == entries_view(old(entries)@).push((key@, value@)),
{
    let ghost before = entries@;
    let pair = (String::from_str(key), value);
    let ghost copy = pair;
    entries.push(pair);
    proof {
        lemma_entries_view_push(before, copy);
    }
}

/// The index of the first entry named `key`, from `i` on.
pub open spec fn entry_index(entries: Seq<(Seq<char>, JsonView)>, key: Seq<char>, i: int) -> Option<
    int,
>
    decreases entries.len() - i,
{
    if i < 0 || i >= entries.len() {
        None
    } else if entries[i].0 == key {
        Some(i)
    } else {
        entry_index(entries, key, i + 1)
    }
}

/// The value of the first entry named `key`, when `value` is an object.
pub open spec fn view_get(value: JsonView, key: Seq<char>) -> Option<JsonView> {
    match value {
        JsonView::Object(entries) => match entry_index(entries, key, 0) {
            Some(i) => Some(entries[i].1),
            None => None,
        },
        _ => None,
    }
}

/// `view_get` applied to an optional value.
pub open spec fn view_get_in(value: Option<JsonView>, key: Seq<char>) -> Option<JsonView> {
    match value {
        Some(v) => view_get(v, key),
        None => None,
    }
}

/// The text, when the optional value is a string.
pub open spec fn text_of(value: Option<JsonView>) -> Option<Seq<char>> {
    match value {
        Some(JsonView::Text(s)) => Some(s),
        _ => None,
    }
}

pub proof fn lemma_entry_index_bounds(entries: Seq<(Seq<char>, JsonView)>, key: Seq<char>, i: int)
    requires
        0 <= i,
    ensures
        entry_index(entries, key, i) matches Some(k) ==> i <= k < entries.len() && entries[k].0
            == key,
    decreases entries.len() - i,
{
    if i < entries.len() && entries[i].0 != key {
        lemma_entry_index_bounds(entries, key, i + 1);
    }
}

/// The index of the first entry named `key`.
pub fn find_entry(entries: &Vec<(String, Json)>, key: &str) -> (r: Option<usize>)
    ensures
        match r {
            Some(i) => entry_index(entries_view(entries@), key@, 0) == Some(i as int) && i
                < entries@.len(),
            None => entry_index(entries_view(entries@), key@, 0) is None,
        },
{
    proof {
        lemma_entries_view(entries@);
        lemma_entry_index_bounds(entries_view(entries@), key@, 0);
    }
    let n = entries.len();
    let mut i: usize = 0;
    while i < n
        invariant
            n == entries@.len(),
            n == entries_view(entries@).len(),
            i <= n,
            forall|k: int|
                0 <= k < n ==> #[trigger] entries_view(entries@)[k] == (
                    entries@[k].0@,
                    json_view(entries@[k].1),
                ),
            entry_index(entries_view(entries@), key@, 0) == entry_index(
                entries_view(entries@),
                key@,
                i as int,
            ),
        decreases n - i,
    {
        assert(entries_view(entries@)[i as int].0 == entries@[i as int].0@);
        if crate::text::str_eq(entries[i].0.as_str(), key) {
            return Some(i);
        }
        i += 1;
    }
    None
}

impl Json {
    /// The value of the first entry named `key`, when this is an object.
    pub fn get(&self, key: &str) -> (r: Option<&Json>)
        ensures
            match r {
                Some(v) => view_get(self@, key@) == Some(v@),
                None => view_get(self@, key@) is None,
            },
    {
        match self {
            Json::Object(entries) => match find_entry(entries, key) {
                Some(i) => {
                    proof {
                        lemma_entries_view(entries@);
                    }
                    Some(&entries[i].1)
                },
                None => None,
            },
            _ => None,
        }
    }

    /// The text, when this is a string.
    pub fn as_text(&self) -> (r: Option<&str>)
        ensures
            match r {
                Some(t) => self@ == JsonView::Text(t@),
                None => !(self@ is Text),
            },
    {
        match self {
            Json::Text(s) => Some(s.as_str()),
            _ => None,
        }
    }
}

/// The value `serde_json::from_slice` reads from `text` into a `serde_json::Value`, as a
/// [`JsonView`]; `None` where it refuses the text.
pub uninterp spec fn json_text_value(text: Seq<u8>) -> Option<JsonView>;

#[verifier::external_type_specification]
#[verifier::external_body]
pub struct ExJsonValue(Value);

/// Calls `serde_json::from_slice::<serde_json::Value>`. Its result is named by
/// [`json_text_value`]: `None` exactly where serde_json refuses the bytes, otherwise the
/// parsed value, converted variant by variant. What serde_json accepts is not restated.
#[verifier::external_body]
pub fn parse_json(bytes: &[u8]) -> (r: Option<Json>)
    ensures
        match r {
            Some(j) => json_text_value(bytes@) == Some(j@),
            None => json_text_value(bytes@) is None,
        },
{
    match serde_json::from_slice::<Value>(bytes) {
        Ok(value) => Some(from_value(value)),
        Err(_) => None,
    }
}

/// The conversion `parse_json` makes, one variant for one: a number keeps the form
/// serde_json holds it in (`u64`, `i64`, or an `f64` as its bit pattern).
#[verifier::external_body]
fn from_value(value: Value) -> Json {
    match value {
        Value::Null => Json::Null,
        Value::Bool(b) => Json::Bool(b),
        Value::Number(n) => Json::Number(match (n.as_u64(), n.as_i64()) {
            (Some(u), _) => JsonNumber::Unsigned(u),
            (None, Some(i)) => JsonNumber::Signed(i),
            _ => JsonNumber::Float(n.as_f64().map_or(0, |x| x.to_bits())),
        }),
        Value::String(t) => Json::Text(t),
        Value::Array(items) => Json::Array(items.into_iter().map(from_value).collect()),
        Value::Object(entries) => Json::Object(
            entries.into_iter().map(|(k, v)| (k, from_value(v))).collect(),
        ),
    }
}

} // verus!
