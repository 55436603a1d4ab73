//! A JSON document model holding plain values.
//!
//! Values parsed from JSON text carry object keys that are unique; lookups
//! return the first entry with a given key.

use vstd::prelude::*;

use crate::text::str_eq;

verus! {

broadcast use vstd::std_specs::vec::group_vec_axioms;

/// A JSON number: its value as a `u64` when it is a non-negative integer
/// in range, and its canonical decimal text.
#[derive(Debug)]
pub struct JsonNumber {
    pub as_u64: Option<u64>,
    pub text: String,
}

/// A JSON value.
#[derive(Debug)]
pub enum JsonValue {
    Null,
    Bool(bool),
    Number(JsonNumber),
    String(String),
    Array(Vec<JsonValue>),
    Object(Vec<(String, JsonValue)>),
}

/// The mathematical content of a JSON value.
pub enum JsonView {
    Null,
    Bool(bool),
    Number(Option<u64>, Seq<char>),
    String(Seq<char>),
    Array(Seq<JsonView>),
    Object(Seq<(Seq<char>, JsonView)>),
}

impl JsonValue {
    /// The content of this value, with strings taken by their characters.
    pub open spec fn model(self) -> JsonView
        decreases self,
    {
        match self {
            JsonValue::Null => JsonView::Null,
            JsonValue::Bool(b) => JsonView::Bool(b),
            JsonValue::Number(n) => JsonView::Number(n.as_u64, n.text@),
            JsonValue::String(s) => JsonView::String(s@),
            JsonValue::Array(items) => JsonView::Array(
                Seq::new(
                    items@.len(),
                    |i: int|
                        if 0 <= i < items@.len() {
                            proof {
                                assert(decreases_to!(items => items[i]));
                            }
                            items[i].model()
                        } else {
                            JsonView::Null
                        },
                ),
            ),
            JsonValue::Object(entries) => JsonView::Object(
                Seq::new(
                    entries@.len(),
                    |i: int|
                        if 0 <= i < entries@.len() {
                            proof {
                                assert(decreases_to!(entries => entries[i]));
                            }
                            (entries[i].0@, entries[i].1.model())
                        } else {
                            (Seq::empty(), JsonView::Null)
                        },
                ),
            ),
        }
    }
}

impl JsonValue {
    /// A copy of this value with the same content.
    pub fn deep_clone(&self) -> (r: JsonValue)
        ensures
            r.model() == self.model(),
        decreases self,
    {
        match self {
            JsonValue::Null => JsonValue::Null,
            JsonValue::Bool(b) => JsonValue::Bool(*b),
            JsonValue::Number(n) => JsonValue::Number(
                JsonNumber { as_u64: n.as_u64, text: n.text.clone() },
            ),
            JsonValue::String(s) => JsonValue::String(s.clone()),
            JsonValue::Array(items) => {
                let mut out: Vec<JsonValue> = Vec::new();
                let n = items.len();
                let mut i: usize = 0;
                while i < n
                    invariant
                        n == items@.len(),
                        i <= n,
                        *self == JsonValue::Array(*items),
                        out@.len() == i,
                        forall|k: int| 0 <= k < i ==> #[trigger] out@[k].model() == items@[k].model(),
                    decreases n - i,
                {
                    proof {
                        assert(decreases_to!(items => items[i as int]));
                        assert(decreases_to!(*self => (*self)->Array_0));
                        assert(decreases_to!(*self => items[i as int]));
                    }
                    let c = items[i].deep_clone();
                    out.push(c);
                    i = i + 1;
                }
                let r = JsonValue::Array(out);
                assert forall|k: int| 0 <= k < out@.len() implies (#[trigger] r.model()->Array_0[k])
                    == self.model()->Array_0[k] by {
                    assert(out@[k].model() == items@[k].model());
                }
                assert(r.model()->Array_0 =~= self.model()->Array_0);
                r
            },
            JsonValue::Object(entries) => {
                let mut out: Vec<(String, JsonValue)> = Vec::new();
                let n = entries.len();
                let mut i: usize = 0;
                while i < n
                    invariant
                        n == entries@.len(),
                        i <= n,
                        *self == JsonValue::Object(*entries),
                        out@.len() == i,
                        forall|k: int|
                            0 <= k < i ==> (#[trigger] out@[k]).0@ == entries@[k].0@ && out@[k].1.model()
                                == entries@[k].1.model(),
                    decreases n - i,
                {
                    proof {
                        assert(decreases_to!(entries => entries[i as int]));
                        assert(decreases_to!(*self => (*self)->Object_0));
                        assert(decreases_to!(*self => entries[i as int]));
                        assert(decreases_to!(*self => entries[i as int].1));
                    }
                    let c = entries[i].1.deep_clone();
                    out.push((entries[i].0.clone(), c));
                    i = i + 1;
                }
                let r = JsonValue::Object(out);
                assert(r.model()->Object_0 =~= self.model()->Object_0);
                r
            },
        }
    }
}

/// Index of the first entry at or after `i` whose key is `key`.
pub open spec fn find_key_from(entries: Seq<(String, JsonValue)>, key: Seq<char>, i: int) -> Option<
    int,
>
    decreases entries.len() - i,
{
    if i < 0 || i >= entries.len() {
        None
    } else if entries[i].0@ == key {
        Some(i)
    } else {
        find_key_from(entries, key, i + 1)
    }
}

/// The member `key` of `v` when `v` is an object that has it (`Value::get`).
pub open spec fn json_get(v: JsonValue, key: Seq<char>) -> Option<JsonValue> {
    match v {
        JsonValue::Object(entries) => match find_key_from(entries@, key, 0) {
            Some(i) => Some(entries@[i].1),
            None => None,
        },
        _ => None,
    }
}

/// The characters of `v` when it is a string (`Value::as_str`).
pub open spec fn json_str(v: Option<JsonValue>) -> Option<Seq<char>> {
    match v {
        Some(JsonValue::String(s)) => Some(s@),
        _ => None,
    }
}

/// The value of `v` when it is an unsigned integer (`Value::as_u64`).
pub open spec fn json_u64(v: Option<JsonValue>) -> Option<u64> {
    match v {
        Some(JsonValue::Number(n)) => n.as_u64,
        _ => None,
    }
}

/// Whether `v` is exactly `true`.
pub open spec fn json_is_true(v: Option<JsonValue>) -> bool {
    v == Some(JsonValue::Bool(true))
}

/// The string field `key` of `v`.
pub open spec fn json_str_field(v: JsonValue, key: Seq<char>) -> Option<Seq<char>> {
    json_str(json_get(v, key))
}

/// The strings among `items`, in order, skipping values of other kinds.
pub open spec fn string_items(items: Seq<JsonValue>) -> Seq<Seq<char>>
    decreases items.len(),
{
    if items.len() == 0 {
        Seq::empty()
    } else {
        let rest = string_items(items.drop_last());
        match items.last() {
            JsonValue::String(s) => rest.push(s@),
            _ => rest,
        }
    }
}

/// The strings of the array member `key` of `v`; empty when the member is
/// missing or not an array.
pub open spec fn json_string_list(v: JsonValue, key: Seq<char>) -> Seq<Seq<char>> {
    match json_get(v, key) {
        Some(JsonValue::Array(items)) => string_items(items@),
        _ => Seq::empty(),
    }
}

impl JsonValue {
    /// The member `key` of this value when it is an object.
    pub fn get(&self, key: &str) -> (r: Option<&JsonValue>)
        ensures
            r matches Some(x) ==> json_get(*self, key@) == Some(*x),
            r is None ==> json_get(*self, key@) is None,
    {
        match self {
            JsonValue::Object(entries) => {
                let n = entries.len();
                let mut i: usize = 0;
                while i < n
                    invariant
                        n == entries@.len(),
                        i <= n,
                        *self == JsonValue::Object(*entries),
                        find_key_from(entries@, key@, 0) == find_key_from(entries@, key@, i as int),
                    decreases n - i,
                {
                    if str_eq(entries[i].0.as_str(), key) {
                        assert(entries@[i as int].0@ == key@);
                        assert(find_key_from(entries@, key@, i as int) == Some(i as int));
                        return Some(&entries[i].1);
                    }
                    i = i + 1;
                }
                None
            },
            _ => None,
        }
    }

    /// The string held by this value, if it is a string.
    pub fn as_str(&self) -> (r: Option<&String>)
        ensures
            r matches Some(s) ==> json_str(Some(*self)) == Some(s@),
            r is None ==> json_str(Some(*self)) is None,
    {
        match self {
            JsonValue::String(s) => Some(s),
            _ => None,
        }
    }

    /// The unsigned integer held by this value, if any.
    pub fn as_u64(&self) -> (r: Option<u64>)
        ensures
            r == json_u64(Some(*self)),
    {
        match self {
            JsonValue::Number(n) => n.as_u64,
            _ => None,
        }
    }

    /// Whether this value is the boolean `true`.
    pub fn is_true(&self) -> (r: bool)
        ensures
            r == json_is_true(Some(*self)),
    {
        match self {
            JsonValue::Bool(b) => *b,
            _ => false,
        }
    }
}

/// The string member `key` of `v`, cloned.
pub fn get_str(v: &JsonValue, key: &str) -> (r: Option<String>)
    ensures
        r matches Some(s) ==> json_str_field(*v, key@) == Some(s@),
        r is None ==> json_str_field(*v, key@) is None,
{
    match v.get(key) {
        Some(x) => match x.as_str() {
            Some(s) => Some(s.clone()),
            None => None,
        },
        None => None,
    }
}

/// The strings of the array member `key` of `v`, in order.
pub fn get_string_list(v: &JsonValue, key: &str) -> (r: Vec<String>)
    ensures
        r@.len() == json_string_list(*v, key@).len(),
        forall|i: int| 0 <= i < r@.len() ==> #[trigger] r@[i]@ == json_string_list(*v, key@)[i],
{
    let mut out: Vec<String> = Vec::new();
    match v.get(key) {
        Some(JsonValue::Array(items)) => {
            let n = items.len();
            let mut i: usize = 0;
            while i < n
                invariant
                    n == items@.len(),
                    i <= n,
                    out@.len() == string_items(items@.take(i as int)).len(),
                    forall|k: int|
                        0 <= k < out@.len() ==> #[trigger] out@[k]@ == string_items(
                            items@.take(i as int),
                        )[k],
                decreases n - i,
            {
                assert(items@.take(i as int + 1).drop_last() =~= items@.take(i as int));
                match &items[i] {
                    JsonValue::String(s) => {
                        out.push(s.clone());
                    },
                    _ => {},
                }
                i = i + 1;
            }
            assert(items@.take(n as int) =~= items@);
        },
        _ => {},
    }
    out
}

/// Index of the first entry at or after `i` whose key is `key`, on content.
pub open spec fn find_key_in_model(entries: Seq<(Seq<char>, JsonView)>, key: Seq<char>, i: int) -> Option<
    int,
>
    decreases entries.len() - i,
{
    if i < 0 || i >= entries.len() {
        None
    } else if entries[i].0 == key {
        Some(i)
    } else {
        find_key_in_model(entries, key, i + 1)
    }
}

/// The member `key` of an object's content.
pub open spec fn model_get(m: JsonView, key: Seq<char>) -> Option<JsonView> {
    match m {
        JsonView::Object(entries) => match find_key_in_model(entries, key, 0) {
            Some(i) => Some(entries[i].1),
            None => None,
        },
        _ => None,
    }
}

/// Content of an optional value.
pub open spec fn opt_model(v: Option<JsonValue>) -> Option<JsonView> {
    match v {
        Some(x) => Some(x.model()),
        None => None,
    }
}

proof fn lemma_find_key_model(entries: Vec<(String, JsonValue)>, key: Seq<char>, i: int)
    requires
        0 <= i,
    ensures
        find_key_from(entries@, key, i) == find_key_in_model(
            JsonValue::Object(entries).model()->Object_0,
            key,
            i,
        ),
    decreases entries@.len() - i,
{
    let em = JsonValue::Object(entries).model()->Object_0;
    if i < entries@.len() {
        assert(em[i].0 == entries@[i].0@);
        lemma_find_key_model(entries, key, i + 1);
    }
}

/// Member lookup depends only on the content of a value.
pub proof fn lemma_get_model(v: JsonValue, key: Seq<char>)
    ensures
        opt_model(json_get(v, key)) == model_get(v.model(), key),
{
    if let JsonValue::Object(entries) = v {
        lemma_find_key_model(entries, key, 0);
        let em = v.model()->Object_0;
        if let Some(i) = find_key_from(entries@, key, 0) {
            lemma_find_key_range(entries@, key, 0);
            assert(em[i].1 == entries@[i].1.model());
        }
    }
}

proof fn lemma_find_key_range(entries: Seq<(String, JsonValue)>, key: Seq<char>, i: int)
    requires
        0 <= i,
    ensures
        find_key_from(entries, key, i) matches Some(j) ==> i <= j < entries.len(),
    decreases entries.len() - i,
{
    if i < entries.len() {
        lemma_find_key_range(entries, key, i + 1);
    }
}

/// The string held by a content, if any.
pub open spec fn model_str(m: Option<JsonView>) -> Option<Seq<char>> {
    match m {
        Some(JsonView::String(s)) => Some(s),
        _ => None,
    }
}

/// The unsigned integer held by a content, if any.
pub open spec fn model_u64(m: Option<JsonView>) -> Option<u64> {
    match m {
        Some(JsonView::Number(n, _)) => n,
        _ => None,
    }
}

/// The strings among a content's array items.
pub open spec fn model_string_items(items: Seq<JsonView>) -> Seq<Seq<char>>
    decreases items.len(),
{
    if items.len() == 0 {
        Seq::empty()
    } else {
        let rest = model_string_items(items.drop_last());
        match items.last() {
            JsonView::String(s) => rest.push(s),
            _ => rest,
        }
    }
}

/// Accessors of a value agree with the same accessors on its content.
pub proof fn lemma_accessors_model(v: Option<JsonValue>)
    ensures
        json_str(v) == model_str(opt_model(v)),
        json_u64(v) == model_u64(opt_model(v)),
        json_is_true(v) == (opt_model(v) == Some(JsonView::Bool(true))),
{
}

/// The strings of an array depend only on its content.
pub proof fn lemma_string_items_model(items: Vec<JsonValue>, n: int)
    requires
        0 <= n <= items@.len(),
    ensures
        string_items(items@.take(n)) == model_string_items(
            JsonValue::Array(items).model()->Array_0.take(n),
        ),
    decreases n,
{
    let m = JsonValue::Array(items).model()->Array_0;
    if n > 0 {
        lemma_string_items_model(items, n - 1);
        assert(items@.take(n).drop_last() =~= items@.take(n - 1));
        assert(m.take(n).drop_last() =~= m.take(n - 1));
        assert(m[n - 1] == items@[n - 1].model());
    }
}

/// The string list of an array member depends only on the content.
pub proof fn lemma_string_list_model(v: JsonValue, key: Seq<char>)
    ensures
        json_string_list(v, key) == match model_get(v.model(), key) {
            Some(JsonView::Array(items)) => model_string_items(items),
            _ => Seq::empty(),
        },
{
    lemma_get_model(v, key);
    if let Some(JsonValue::Array(items)) = json_get(v, key) {
        lemma_string_items_model(items, items@.len() as int);
        assert(items@.take(items@.len() as int) =~= items@);
        let m = JsonValue::Array(items).model()->Array_0;
        assert(m.take(m.len() as int) =~= m);
    }
}

/// A `serde_json` document.
#[verifier::external_type_specification]
#[verifier::external_body]
pub struct ExSerdeValue(serde_json::Value);

/// The content of the document `serde_json` parses from `text`, or `None`
/// when `text` is not JSON.
pub uninterp spec fn json_parse(text: Seq<char>) -> Option<JsonView>;

/// Parses `text` as JSON (`serde_json::from_str::<serde_json::Value>`) into
/// the library's model; `None` when it is not JSON. The grammar and which
/// document comes out are `serde_json`'s, left to the name `json_parse`.
#[verifier::external_body]
pub(crate) fn parse_json(text: &str) -> (r: Option<JsonValue>)
    ensures
        match r {
            Some(v) => json_parse(text@) == Some(v.model()),
            None => json_parse(text@) is None,
        },
{
    serde_json::from_str::<serde_json::Value>(text).ok().map(|v| from_serde_value(&v))
}

/// The body of `parse_json`'s conversion: a `serde_json` document turned
/// into the library's model node for node (numbers keep `as_u64` and their
/// decimal text, objects their members in order).
#[verifier::external_body]
fn from_serde_value(v: &serde_json::Value) -> JsonValue {
    match v {
        serde_json::Value::Null => JsonValue::Null,
        serde_json::Value::Bool(b) => JsonValue::Bool(*b),
        serde_json::Value::Number(n) => JsonValue::Number(
            JsonNumber { as_u64: n.as_u64(), text: n.to_string() },
        ),
        serde_json::Value::String(s) => JsonValue::String(s.clone()),
        serde_json::Value::Array(items) => JsonValue::Array(items.iter().map(from_serde_value).collect()),
        serde_json::Value::Object(map) => JsonValue::Object(
            map.iter().map(|(k, x)| (k.clone(), from_serde_value(x))).collect(),
        ),
    }
}

/// A value whose content is the document parsed from `text`, when `text`
/// is JSON. Every accessor of this module depends only on a value's
/// content, so which such value is meant does not matter.
pub open spec fn parsed_json(text: Seq<char>) -> Option<JsonValue> {
    match json_parse(text) {
        Some(m) => Some(choose|v: JsonValue| v.model() == m),
        None => None,
    }
}

/// What `parse_json` returned has the content of `parsed_json`.
pub proof fn lemma_parsed_json(text: Seq<char>, v: JsonValue)
    requires
        json_parse(text) == Some(v.model()),
    ensures
        parsed_json(text) matches Some(w) && w.model() == v.model(),
{
    assert(exists|w: JsonValue| w.model() == v.model());
}

/// Member lookups agree on values with the same content.
pub proof fn lemma_same_content_fields(v: JsonValue, w: JsonValue, key: Seq<char>)
    requires
        v.model() == w.model(),
    ensures
        json_str_field(v, key) == json_str_field(w, key),
        json_is_true(json_get(v, key)) == json_is_true(json_get(w, key)),
        json_u64(json_get(v, key)) == json_u64(json_get(w, key)),
        json_string_list(v, key) == json_string_list(w, key),
{
    lemma_get_model(v, key);
    lemma_get_model(w, key);
    lemma_accessors_model(json_get(v, key));
    lemma_accessors_model(json_get(w, key));
    lemma_string_list_model(v, key);
    lemma_string_list_model(w, key);
}

} // verus!
