//! JSON values as the library holds them, and their rendering as text.

use crate::assoc::{lookup};
use crate::text::chars_of;
use serde_json::{Number, Value};
use vstd::prelude::*;

verus! {

/// A JSON value. An object is a table in the order of its keys.
#[derive(Debug)]
pub enum Json {
    Null,
    Bool(bool),
    Integer(i128),
    Decimal(String),
    String(String),
    Array(Vec<Json>),
    Object(Vec<(String, Json)>),
}

/// The mathematical value of a `Json`.
pub enum JsonView {
    Null,
    Bool(bool),
    Integer(int),
    Decimal(Seq<char>),
    Text(Seq<char>),
    List(Seq<JsonView>),
    Record(Seq<(Seq<char>, JsonView)>),
}

/// The mathematical value of a JSON value.
pub open spec fn json_view(value: Json) -> JsonView
    decreases value, 0nat,
{
    match value {
        Json::Null => JsonView::Null,
        Json::Bool(b) => JsonView::Bool(b),
        Json::Integer(n) => JsonView::Integer(n as int),
        Json::Decimal(text) => JsonView::Decimal(text@),
        Json::String(text) => JsonView::Text(text@),
        Json::Array(items) => JsonView::List(json_items(items, items.len() as nat)),
        Json::Object(entries) => JsonView::Record(json_members(entries, entries.len() as nat)),
    }
}

/// The views of the first `n` items.
pub open spec fn json_items(items: Vec<Json>, n: nat) -> Seq<JsonView>
    decreases items, n,
{
    if 0 < n <= items.len() {
        json_items(items, (n - 1) as nat).push(json_view(items[n - 1]))
    } else {
        Seq::empty()
    }
}

/// The views of the first `n` members.
pub open spec fn json_members(entries: Vec<(String, Json)>, n: nat) -> Seq<(Seq<char>, JsonView)>
    decreases entries, n,
{
    if 0 < n <= entries.len() {
        json_members(entries, (n - 1) as nat).push((entries[n - 1].0@, json_view(entries[n - 1].1)))
    } else {
        Seq::empty()
    }
}

impl DeepView for Json {
    type V = JsonView;

    open spec fn deep_view(&self) -> JsonView {
        json_view(*self)
    }
}

proof fn lemma_json_items(items: Vec<Json>, n: nat)
    requires
        n <= items.len(),
    ensures
        json_items(items, n) == items.deep_view().take(n as int),
    decreases n,
{
    if n > 0 {
        lemma_json_items(items, (n - 1) as nat);
        assert(items.deep_view().take(n as int) =~= items.deep_view().take(n - 1).push(
            json_view(items[n - 1]),
        ));
    } else {
        assert(items.deep_view().take(0) =~= Seq::empty());
    }
}

proof fn lemma_json_members(entries: Vec<(String, Json)>, n: nat)
    requires
        n <= entries.len(),
    ensures
        json_members(entries, n) == entries.deep_view().take(n as int),
    decreases n,
{
    if n > 0 {
        lemma_json_members(entries, (n - 1) as nat);
        assert(entries.deep_view()[n - 1] == (entries[n - 1].0@, json_view(entries[n - 1].1)));
        assert(entries.deep_view().take(n as int) =~= entries.deep_view().take(n - 1).push(
            (entries[n - 1].0@, json_view(entries[n - 1].1)),
        ));
    } else {
        assert(entries.deep_view().take(0) =~= Seq::empty());
    }
}

/// The view of an array is the sequence of the views of its items.
pub proof fn lemma_array_view(items: Vec<Json>)
    ensures
        Json::Array(items).deep_view() == JsonView::List(items.deep_view()),
{
    lemma_json_items(items, items.len() as nat);
    assert(items.deep_view().take(items.len() as int) =~= items.deep_view());
}

/// The view of an object is the view of its table.
pub proof fn lemma_object_view(entries: Vec<(String, Json)>)
    ensures
        Json::Object(entries).deep_view() == JsonView::Record(entries.deep_view()),
{
    lemma_json_members(entries, entries.len() as nat);
    assert(entries.deep_view().take(entries.len() as int) =~= entries.deep_view());
}

/// The value of the member `key` of an object; nothing for a value that is
/// no object or has no such member.
pub open spec fn json_member(value: JsonView, key: Seq<char>) -> Option<JsonView> {
    match value {
        JsonView::Record(entries) => lookup(entries, key),
        _ => None,
    }
}

/// The items of an array; nothing for a value that is no array.
pub open spec fn json_elements(value: JsonView) -> Option<Seq<JsonView>> {
    match value {
        JsonView::List(items) => Some(items),
        _ => None,
    }
}

/// The text that `serde_json::to_string` gives for a value.
pub uninterp spec fn json_compact(value: JsonView) -> Seq<char>;

/// The text that `serde_json::to_string_pretty` gives for a value.
pub uninterp spec fn json_pretty(value: JsonView) -> Seq<char>;

/// `serde_json::Value`: the library makes such values to have them written
/// as text, and never looks into one.
#[verifier::external_type_specification]
#[verifier::external_body]
pub struct ExOutsideValue(serde_json::Value);

/// Builds the `serde_json::Value` of the same shape: variant by variant, an
/// integer through `Number::from_i128`, a decimal through `str::parse`, and
/// an object through `Map::from_iter`. A number that `serde_json` does not
/// take becomes `Value::Null`. Nothing is claimed of the result.
#[verifier::external_body]
fn outside_value(value: &Json) -> serde_json::Value {
    match value {
        Json::Null => Value::Null,
        Json::Bool(b) => Value::Bool(*b),
        Json::Integer(n) => Number::from_i128(*n).map_or(Value::Null, Value::Number),
        Json::Decimal(t) => t.parse().map_or(Value::Null, Value::Number),
        Json::String(s) => Value::String(s.clone()),
        Json::Array(a) => Value::Array(a.iter().map(outside_value).collect()),
        Json::Object(o) => Value::Object(
            o.iter().map(|e| (e.0.clone(), outside_value(&e.1))).collect(),
        ),
    }
}

/// `serde_json::to_string` on the value: its compact JSON text, which
/// depends on the value alone.
#[verifier::external_body]
pub(crate) fn compact_text(value: &Json) -> (r: String)
    ensures
        r@ == json_compact(value.deep_view()),
{
    serde_json::to_string(&outside_value(value)).unwrap_or_default()
}

/// `serde_json::to_string_pretty` on the value: its indented JSON text, which
/// depends on the value alone.
#[verifier::external_body]
pub(crate) fn pretty_text(value: &Json) -> (r: String)
    ensures
        r@ == json_pretty(value.deep_view()),
{
    serde_json::to_string_pretty(&outside_value(value)).unwrap_or_default()
}

impl Json {
    /// A JSON string with the characters of `text`.
    pub fn text(text: &str) -> (r: Json)
        ensures
            r.deep_view() == JsonView::Text(text@),
    {
        Json::String(String::from_str(text))
    }

    /// A copy of the value.
    pub fn copy(&self) -> (r: Json)
        ensures
            r.deep_view() == self.deep_view(),
        decreases self,
    {
        match self {
            Json::Null => Json::Null,
            Json::Bool(b) => Json::Bool(*b),
            Json::Integer(n) => Json::Integer(*n),
            Json::Decimal(text) => Json::Decimal(text.clone()),
            Json::String(text) => Json::String(text.clone()),
            Json::Array(items) => {
                let mut out: Vec<Json> = Vec::new();
                let mut i: usize = 0;
                while i < items.len()
                    invariant
                        i <= items.len(),
                        *self == Json::Array(*items),
                        out.deep_view() == items.deep_view().take(i as int),
                    decreases items.len() - i,
                {
                    proof {
                        vstd::std_specs::vec::axiom_vec_index_decreases(*items, i as int);
                        assert(decreases_to!(*items => items[i as int]));
                        assert((*self)->Array_0 == *items);
                    }
                    let item = items[i].copy();
                    let ghost before = out.deep_view();
                    out.push(item);
                    assert(out.deep_view() =~= before.push(item.deep_view()));
                    assert(items.deep_view().take(i + 1) =~= items.deep_view().take(i as int).push(
                        items[i as int].deep_view(),
                    ));
                    i += 1;
                }
                proof {
                    assert(items.deep_view().take(items.len() as int) =~= items.deep_view());
                    lemma_array_view(*items);
                    lemma_array_view(out);
                }
                Json::Array(out)
            },
            Json::Object(entries) => {
                let mut out: Vec<(String, Json)> = Vec::new();
                let mut i: usize = 0;
                while i < entries.len()
                    invariant
                        i <= entries.len(),
                        *self == Json::Object(*entries),
                        out.deep_view() == entries.deep_view().take(i as int),
                    decreases entries.len() - i,
                {
                    let key = entries[i].0.clone();
                    proof {
                        vstd::std_specs::vec::axiom_vec_index_decreases(*entries, i as int);
                        assert(decreases_to!(*entries => entries[i as int]));
                        assert(decreases_to!(entries[i as int] => entries[i as int].1));
                        assert((*self)->Object_0 == *entries);
                    }
                    let item = entries[i].1.copy();
                    let ghost before = out.deep_view();
                    out.push((key, item));
                    assert(out.deep_view() =~= before.push((key@, item.deep_view())));
                    assert(entries.deep_view().take(i + 1) =~= entries.deep_view().take(
                        i as int,
                    ).push((entries[i as int].0@, entries[i as int].1.deep_view())));
                    i += 1;
                }
                proof {
                    assert(entries.deep_view().take(entries.len() as int) =~= entries.deep_view());
                    lemma_object_view(*entries);
                    lemma_object_view(out);
                }
                Json::Object(out)
            },
        }
    }

    /// The member `key` of an object.
    pub fn get(&self, key: &str) -> (r: Option<&Json>)
        ensures
            match r {
                Some(v) => json_member(self.deep_view(), key@) == Some(v.deep_view()),
                None => json_member(self.deep_view(), key@) is None,
            },
    {
        match self {
            Json::Object(entries) => {
                proof {
                    lemma_object_view(*entries);
                }
                let k = chars_of(key);
                match crate::assoc::position(entries, &k) {
                    Some(i) => {
                        assert(entries.deep_view()[i as int].1 == entries[i as int].1.deep_view());
                        Some(&entries[i].1)
                    },
                    None => None,
                }
            },
            _ => None,
        }
    }

    /// The items of an array.
    pub fn as_array(&self) -> (r: Option<&Vec<Json>>)
        ensures
            match r {
                Some(items) => json_elements(self.deep_view()) == Some(items.deep_view()),
                None => json_elements(self.deep_view()) is None,
            },
    {
        match self {
            Json::Array(items) => {
                proof {
                    lemma_array_view(*items);
                }
                Some(items)
            },
            _ => None,
        }
    }
}

} // verus!
