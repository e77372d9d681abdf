//! JSON values as the repository settings logic reads and builds them.
use vstd::prelude::*;

use crate::text::text_eq;

verus! {

/// A JSON value.  An object keeps its entries in order, each key once.
#[derive(Debug)]
pub enum Json {
    /// `null`.
    Null,
    /// `true` or `false`.
    Bool(bool),
    /// A number: its value when it is a whole number from 0 to `u64::MAX`,
    /// `None` for any other number.
    Number(Option<u64>),
    /// A string.
    Str(String),
    /// An array.
    Array(Vec<Json>),
    /// An object: its entries, in order.
    Object(Vec<(String, Json)>),
}

/// A JSON value taken by value.
#[verifier::ext_equal]
pub enum JsonView {
    Null,
    Bool(bool),
    Number(Option<u64>),
    Str(Seq<char>),
    Array(Seq<JsonView>),
    Object(Seq<(Seq<char>, JsonView)>),
}

/// A JSON value taken by value.
pub open spec fn json_view(j: Json) -> JsonView
    decreases j,
{
    match j {
        Json::Null => JsonView::Null,
        Json::Bool(b) => JsonView::Bool(b),
        Json::Number(n) => JsonView::Number(n),
        Json::Str(s) => JsonView::Str(s@),
        Json::Array(a) => JsonView::Array(
            Seq::new(
                a@.len(),
                |i: int|
                    if 0 <= i < a@.len() {
                        json_view(a@[i])
                    } else {
                        JsonView::Null
                    },
            ),
        ),
        Json::Object(es) => JsonView::Object(
            Seq::new(
                es@.len(),
                |i: int|
                    if 0 <= i < es@.len() {
                        (es@[i].0@, json_view(es@[i].1))
                    } else {
                        (Seq::empty(), JsonView::Null)
                    },
            ),
        ),
    }
}

/// The value of the first entry named `key`.
pub open spec fn entries_get(es: Seq<(String, Json)>, key: Seq<char>) -> Option<Json>
    decreases es.len(),
{
    if es.len() == 0 {
        None
    } else if es[0].0@ == key {
        Some(es[0].1)
    } else {
        entries_get(es.drop_first(), key)
    }
}

/// The member `key` of an object; nothing for other values.
pub open spec fn json_get(v: Json, key: Seq<char>) -> Option<Json> {
    match v {
        Json::Object(es) => entries_get(es@, key),
        _ => None,
    }
}

/// The member `key` of an optional object.
pub open spec fn opt_get(v: Option<Json>, key: Seq<char>) -> Option<Json> {
    match v {
        Some(j) => json_get(j, key),
        None => None,
    }
}

/// The text of a string value.
pub open spec fn json_str(v: Option<Json>) -> Option<Seq<char>> {
    match v {
        Some(Json::Str(s)) => Some(s@),
        _ => None,
    }
}

/// The value of a boolean.
pub open spec fn json_bool(v: Option<Json>) -> Option<bool> {
    match v {
        Some(Json::Bool(b)) => Some(b),
        _ => None,
    }
}

/// The value of a whole number that fits a `u64`.
pub open spec fn json_u64(v: Option<Json>) -> Option<u64> {
    match v {
        Some(Json::Number(n)) => n,
        _ => None,
    }
}

/// The items of an array.
pub open spec fn json_array(v: Option<Json>) -> Option<Seq<Json>> {
    match v {
        Some(Json::Array(a)) => Some(a@),
        _ => None,
    }
}

/// An optional borrowed value taken by value.
pub open spec fn deref_opt(o: Option<&Json>) -> Option<Json> {
    match o {
        Some(v) => Some(*v),
        None => None,
    }
}

/// The texts among the items of a list, in order; other items are skipped.
pub open spec fn texts_of(items: Seq<Json>) -> Seq<Seq<char>>
    decreases items.len(),
{
    if items.len() == 0 {
        Seq::empty()
    } else {
        texts_of(items.drop_last()) + match items.last() {
            Json::Str(s) => seq![s@],
            _ => Seq::empty(),
        }
    }
}

fn entries_lookup<'a>(es: &'a Vec<(String, Json)>, key: &str) -> (r: Option<&'a Json>)
    ensures
        deref_opt(r) == entries_get(es@, key@),
{
    let mut i: usize = 0;
    assert(es@.skip(0) =~= es@);
    while i < es.len()
        invariant
            i <= es.len(),
            entries_get(es@, key@) == entries_get(es@.skip(i as int), key@),
        decreases es.len() - i,
    {
        assert(es@.skip(i as int).drop_first() =~= es@.skip(i + 1));
        if text_eq(es[i].0.as_str(), key) {
            return Some(&es[i].1);
        }
        i = i + 1;
    }
    None
}

impl Json {
    /// The member `key` of an object; `None` for other values or a missing key.
    pub fn get(&self, key: &str) -> (r: Option<&Json>)
        ensures
            deref_opt(r) == json_get(*self, key@),
    {
        match self {
            Json::Object(es) => entries_lookup(es, key),
            _ => None,
        }
    }

    /// The text of a string value.
    pub fn as_str(&self) -> (r: Option<&str>)
        ensures
            match r {
                Some(s) => json_str(Some(*self)) == Some(s@),
                None => json_str(Some(*self)) is None,
            },
    {
        match self {
            Json::Str(s) => Some(s.as_str()),
            _ => None,
        }
    }

    /// The value of a boolean.
    pub fn as_bool(&self) -> (r: Option<bool>)
        ensures
            r == json_bool(Some(*self)),
    {
        match self {
            Json::Bool(b) => Some(*b),
            _ => None,
        }
    }

    /// The value of a whole number that fits a `u64`.
    pub fn as_u64(&self) -> (r: Option<u64>)
        ensures
            r == json_u64(Some(*self)),
    {
        match self {
            Json::Number(n) => *n,
            _ => None,
        }
    }

    /// The items of an array.
    pub fn as_array(&self) -> (r: Option<&Vec<Json>>)
        ensures
            match r {
                Some(a) => json_array(Some(*self)) == Some(a@),
                None => json_array(Some(*self)) is None,
            },
    {
        match self {
            Json::Array(a) => Some(a),
            _ => None,
        }
    }

    /// A string value holding a copy of `s`.
    pub fn text(s: &str) -> (r: Json)
        ensures
            json_str(Some(r)) == Some(s@),
    {
        Json::Str(String::from_str(s))
    }
}

/// The member `key` of an optional value.
pub fn member<'a>(v: Option<&'a Json>, key: &str) -> (r: Option<&'a Json>)
    ensures
        deref_opt(r) == opt_get(deref_opt(v), key@),
{
    match v {
        Some(j) => j.get(key),
        None => None,
    }
}

/// The text of an optional string value.
pub fn opt_str<'a>(v: Option<&'a Json>) -> (r: Option<&'a str>)
    ensures
        match r {
            Some(s) => json_str(deref_opt(v)) == Some(s@),
            None => json_str(deref_opt(v)) is None,
        },
{
    match v {
        Some(j) => j.as_str(),
        None => None,
    }
}

/// The value of an optional boolean.
pub fn opt_bool(v: Option<&Json>) -> (r: Option<bool>)
    ensures
        r == json_bool(deref_opt(v)),
{
    match v {
        Some(j) => j.as_bool(),
        None => None,
    }
}

/// The value of an optional whole number.
pub fn opt_u64(v: Option<&Json>) -> (r: Option<u64>)
    ensures
        r == json_u64(deref_opt(v)),
{
    match v {
        Some(j) => j.as_u64(),
        None => None,
    }
}

/// The items of an optional array.
pub fn opt_array<'a>(v: Option<&'a Json>) -> (r: Option<&'a Vec<Json>>)
    ensures
        match r {
            Some(a) => json_array(deref_opt(v)) == Some(a@),
            None => json_array(deref_opt(v)) is None,
        },
{
    match v {
        Some(j) => j.as_array(),
        None => None,
    }
}

/// Copies of the texts among `items`, in order.
pub fn collect_texts(items: &Vec<Json>) -> (r: Vec<String>)
    ensures
        crate::text::strings_view(r@) == texts_of(items@),
{
    let mut r: Vec<String> = Vec::new();
    let mut i: usize = 0;
    assert(items@.take(0) =~= Seq::<Json>::empty());
    while i < items.len()
        invariant
            i <= items.len(),
            crate::text::strings_view(r@) == texts_of(items@.take(i as int)),
        decreases items.len() - i,
    {
        assert(items@.take(i + 1).drop_last() =~= items@.take(i as int));
        let ghost before = r@;
        match &items[i] {
            Json::Str(s) => {
                r.push(String::from_str(s.as_str()));
                assert(crate::text::strings_view(r@) =~= crate::text::strings_view(before).push(
                    s@,
                ));
            },
            _ => {
                assert(crate::text::strings_view(r@) =~= crate::text::strings_view(before)
                    + Seq::empty());
            },
        }
        i = i + 1;
    }
    assert(items@.take(i as int) =~= items@);
    r
}

// ---------------------------------------------------------------------------
// Building values
// ---------------------------------------------------------------------------

/// Object entries taken by value.
pub open spec fn entries_view(es: Seq<(String, Json)>) -> Seq<(Seq<char>, JsonView)> {
    Seq::new(es.len(), |i: int| (es[i].0@, json_view(es[i].1)))
}

/// The value of the first entry named `key`, among entries taken by value.
pub open spec fn members_get(es: Seq<(Seq<char>, JsonView)>, key: Seq<char>) -> Option<JsonView>
    decreases es.len(),
{
    if es.len() == 0 {
        None
    } else if es[0].0 == key {
        Some(es[0].1)
    } else {
        members_get(es.drop_first(), key)
    }
}

/// The member `key` of an object taken by value; nothing for other values.
pub open spec fn view_member(v: JsonView, key: Seq<char>) -> Option<JsonView> {
    match v {
        JsonView::Object(es) => members_get(es, key),
        _ => None,
    }
}

/// The member `key` of an optional value taken by value.
pub open spec fn opt_member(v: Option<JsonView>, key: Seq<char>) -> Option<JsonView> {
    match v {
        Some(x) => view_member(x, key),
        None => None,
    }
}

/// Array items taken by value.
pub open spec fn items_view(items: Seq<Json>) -> Seq<JsonView> {
    Seq::new(items.len(), |i: int| json_view(items[i]))
}

/// An object entry when the value is present.
pub open spec fn opt_field(key: Seq<char>, v: Option<JsonView>) -> Seq<(Seq<char>, JsonView)> {
    match v {
        Some(x) => seq![(key, x)],
        None => Seq::empty(),
    }
}

/// A list of texts as a JSON array of strings.
pub open spec fn texts_json(t: Seq<Seq<char>>) -> JsonView {
    JsonView::Array(Seq::new(t.len(), |i: int| JsonView::Str(t[i])))
}

proof fn lemma_object_view(es: Vec<(String, Json)>)
    ensures
        json_view(Json::Object(es)) == JsonView::Object(entries_view(es@)),
{
    assert(json_view(Json::Object(es)) matches JsonView::Object(x) && x =~= entries_view(es@));
}

proof fn lemma_array_view(items: Vec<Json>)
    ensures
        json_view(Json::Array(items)) == JsonView::Array(items_view(items@)),
{
    assert(json_view(Json::Array(items)) matches JsonView::Array(x) && x =~= items_view(items@));
}

/// An object holding `es`.
pub fn object(es: Vec<(String, Json)>) -> (r: Json)
    ensures
        json_view(r) == JsonView::Object(entries_view(es@)),
{
    proof {
        lemma_object_view(es);
    }
    Json::Object(es)
}

/// An array holding `items`.
pub fn array(items: Vec<Json>) -> (r: Json)
    ensures
        json_view(r) == JsonView::Array(items_view(items@)),
{
    proof {
        lemma_array_view(items);
    }
    Json::Array(items)
}

/// A string value.
pub fn text_json(s: &str) -> (r: Json)
    ensures
        json_view(r) == JsonView::Str(s@),
{
    Json::Str(String::from_str(s))
}

/// A boolean value.
pub fn bool_json(b: bool) -> (r: Json)
    ensures
        json_view(r) == JsonView::Bool(b),
{
    Json::Bool(b)
}

/// A whole number.
pub fn u64_json(n: u64) -> (r: Json)
    ensures
        json_view(r) == JsonView::Number(Some(n)),
{
    Json::Number(Some(n))
}

/// An array of strings holding copies of `t`.
pub fn texts_array(t: &[String]) -> (r: Json)
    ensures
        json_view(r) == texts_json(crate::text::strings_view(t@)),
{
    let mut items: Vec<Json> = Vec::new();
    let mut i: usize = 0;
    while i < t.len()
        invariant
            i <= t.len(),
            items_view(items@) == texts_json(crate::text::strings_view(t@)).view_items().take(
                i as int,
            ),
        decreases t.len() - i,
    {
        let ghost before = items@;
        let x = text_json(t[i].as_str());
        items.push(x);
        assert(items_view(items@) =~= items_view(before).push(json_view(x)));
        assert(crate::text::strings_view(t@)[i as int] == t@[i as int]@);
        assert(items_view(items@) =~= texts_json(crate::text::strings_view(t@)).view_items().take(
            i + 1,
        ));
        i = i + 1;
    }
    assert(texts_json(crate::text::strings_view(t@)).view_items().take(i as int)
        =~= texts_json(crate::text::strings_view(t@)).view_items());
    array(items)
}

impl JsonView {
    /// The items of an array (none for other values).
    pub open spec fn view_items(self) -> Seq<JsonView> {
        match self {
            JsonView::Array(a) => a,
            _ => Seq::empty(),
        }
    }
}

/// Append an entry to an object under construction.
pub fn push_entry(es: &mut Vec<(String, Json)>, key: &str, v: Json)
    ensures
        entries_view(final(es)@) == entries_view(old(es)@).push((key@, json_view(v))),
{
    let ghost before = es@;
    es.push((String::from_str(key), v));
    assert(entries_view(es@) =~= entries_view(before).push((key@, json_view(v))));
}

} // verus!
