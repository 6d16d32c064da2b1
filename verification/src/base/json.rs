//! JSON values: the part of an object that has no type of its own.
use vstd::prelude::*;

use crate::base::text::{lent, same};

verus! {

/// A JSON value.
///
/// The entries of an object stand in the order in which they were written.
#[derive(Debug, PartialEq, Eq)]
pub enum Json {
    Null,
    Bool(bool),
    /// A number that an `i64` holds.
    Int(i64),
    /// Any other number, as it is written.
    Decimal(String),
    Str(String),
    Array(Vec<Json>),
    Object(Vec<(String, Json)>),
}

/// A JSON value, as a mathematical object.
pub enum JsonView {
    Null,
    Bool(bool),
    Int(int),
    Decimal(Seq<char>),
    Str(Seq<char>),
    Array(Seq<JsonView>),
    Object(Seq<(Seq<char>, JsonView)>),
}

impl Json {
    /// The value that this one stands for.
    pub open spec fn model(&self) -> JsonView
        decreases self,
    {
        match self {
            Json::Null => JsonView::Null,
            Json::Bool(b) => JsonView::Bool(*b),
            Json::Int(i) => JsonView::Int(*i as int),
            Json::Decimal(s) => JsonView::Decimal(s@),
            Json::Str(s) => JsonView::Str(s@),
            Json::Array(v) => JsonView::Array(
                Seq::new(
                    v@.len(),
                    |i: int|
                        if 0 <= i < v@.len() {
                            v@[i].model()
                        } else {
                            JsonView::Null
                        },
                ),
            ),
            Json::Object(v) => JsonView::Object(
                Seq::new(
                    v@.len(),
                    |i: int|
                        if 0 <= i < v@.len() {
                            (v@[i].0@, v@[i].1.model())
                        } else {
                            (Seq::empty(), JsonView::Null)
                        },
                ),
            ),
        }
    }
}

impl View for Json {
    type V = JsonView;

    open spec fn view(&self) -> JsonView {
        self.model()
    }
}

/// What the values of a list stand for.
pub open spec fn models(list: Seq<Json>) -> Seq<JsonView> {
    list.map_values(|j: Json| j@)
}

/// What the entries of an object stand for.
pub open spec fn entry_models(list: Seq<(String, Json)>) -> Seq<(Seq<char>, JsonView)> {
    list.map_values(|e: (String, Json)| (e.0@, e.1@))
}

/// What an optional borrowed value stands for.
pub open spec fn model_of(j: Option<&Json>) -> Option<JsonView> {
    match j {
        Some(j) => Some(j@),
        None => None,
    }
}

/// The value of the first entry under a key.
pub open spec fn lookup(entries: Seq<(Seq<char>, JsonView)>, key: Seq<char>) -> Option<JsonView>
    decreases entries.len(),
{
    if entries.len() == 0 {
        None
    } else if entries[0].0 == key {
        Some(entries[0].1)
    } else {
        lookup(entries.drop_first(), key)
    }
}

impl JsonView {
    /// A field of an object.
    pub open spec fn get(self, key: Seq<char>) -> Option<JsonView> {
        match self {
            JsonView::Object(entries) => lookup(entries, key),
            _ => None,
        }
    }

    /// An element of an array.
    pub open spec fn nth(self, index: int) -> Option<JsonView> {
        match self {
            JsonView::Array(items) => if 0 <= index < items.len() {
                Some(items[index])
            } else {
                None
            },
            _ => None,
        }
    }

    pub open spec fn text(self) -> Option<Seq<char>> {
        match self {
            JsonView::Str(s) => Some(s),
            _ => None,
        }
    }

    pub open spec fn whole(self) -> Option<int> {
        match self {
            JsonView::Int(i) => Some(i),
            _ => None,
        }
    }

    pub open spec fn flag(self) -> Option<bool> {
        match self {
            JsonView::Bool(b) => Some(b),
            _ => None,
        }
    }

    pub open spec fn items(self) -> Option<Seq<JsonView>> {
        match self {
            JsonView::Array(items) => Some(items),
            _ => None,
        }
    }

    pub open spec fn entries(self) -> Option<Seq<(Seq<char>, JsonView)>> {
        match self {
            JsonView::Object(entries) => Some(entries),
            _ => None,
        }
    }
}

/// A field of a value that may be absent.
pub open spec fn part(j: Option<JsonView>, key: Seq<char>) -> Option<JsonView> {
    match j {
        Some(j) => j.get(key),
        None => None,
    }
}

/// The text of a value that may be absent.
pub open spec fn text_of(j: Option<JsonView>) -> Option<Seq<char>> {
    match j {
        Some(j) => j.text(),
        None => None,
    }
}

/// The integer of a value that may be absent.
pub open spec fn int_of(j: Option<JsonView>) -> Option<int> {
    match j {
        Some(j) => j.whole(),
        None => None,
    }
}

/// The elements of a value that may be absent; none where it is no array.
pub open spec fn items_of(j: Option<JsonView>) -> Seq<JsonView> {
    match j {
        Some(JsonView::Array(items)) => items,
        _ => Seq::empty(),
    }
}

/// The JSON value that bytes hold.
pub uninterp spec fn parsed_json(bytes: Seq<u8>) -> Option<JsonView>;

/// The compact JSON text of a value.
pub uninterp spec fn json_text(value: JsonView) -> Seq<char>;

/// `serde_json::from_slice` into a `serde_json::Value`, under a name: the
/// value that the bytes hold, or nothing where they are not JSON.
#[verifier::external_body]
fn parse_json(bytes: &[u8]) -> (r: Option<Json>)
    ensures
        model_of(
            match r {
                Some(j) => Some(&j),
                None => None,
            },
        ) == parsed_json(bytes@),
{
    match serde_json::from_slice::<serde_json::Value>(bytes) {
        Ok(value) => Some(from_value(&value)),
        Err(_) => None,
    }
}

/// `serde_json::Value`'s `to_string`, under a name: the compact text.
#[verifier::external_body]
fn write_json(value: &Json) -> (r: String)
    ensures
        r@ == json_text(value@),
{
    to_value(value).to_string()
}

/// The YAML text of a value, or why it has none.
pub uninterp spec fn yaml_text(value: JsonView) -> Result<Seq<char>, Seq<char>>;

/// `serde_saphyr::to_string`, under a name: the text, or the error's.
#[verifier::external_body]
fn write_yaml(value: &Json) -> (r: Result<String, String>)
    ensures
        (match r {
            Ok(text) => Ok(text@),
            Err(error) => Err(error@),
        }) == yaml_text(value@),
{
    serde_saphyr::to_string(&to_value(value)).map_err(|error| error.to_string())
}

/// A `serde_json::Value`, converted: each kind of value to the same kind here,
/// a number to `Int` where `serde_json::Number::as_i64` gives one and to its
/// text where it does not.
#[verifier::external_body]
fn from_value(value: &serde_json::Value) -> (r: Json) {
    match value {
        serde_json::Value::Null => Json::Null,
        serde_json::Value::Bool(b) => Json::Bool(*b),
        serde_json::Value::Number(n) => n.as_i64().map(Json::Int).unwrap_or(Json::Decimal(n.to_string())),
        serde_json::Value::String(s) => Json::Str(s.clone()),
        serde_json::Value::Array(items) => Json::Array(items.iter().map(from_value).collect()),
        serde_json::Value::Object(map) => Json::Object(
            map.iter().map(|e| (e.0.clone(), from_value(e.1))).collect(),
        ),
    }
}

/// The reverse of [`from_value`].
#[verifier::external_body]
fn to_value(value: &Json) -> (r: serde_json::Value) {
    match value {
        Json::Null => serde_json::Value::Null,
        Json::Bool(b) => serde_json::Value::Bool(*b),
        Json::Int(i) => serde_json::Value::from(*i),
        Json::Decimal(s) => s.parse().map(serde_json::Value::Number).unwrap_or(serde_json::Value::Null),
        Json::Str(s) => serde_json::Value::String(s.clone()),
        Json::Array(items) => items.iter().map(to_value).collect(),
        Json::Object(entries) => entries.iter().map(|e| (e.0.clone(), to_value(&e.1))).collect(),
    }
}

/// `serde_json::Value`: a value of the parser, only carried through.
#[verifier::external_type_specification]
#[verifier::external_body]
pub struct ExValue(serde_json::Value);

/// A value as YAML, the way a manifest is read and edited.
pub fn yaml_of(value: &Json) -> (r: Result<String, String>)
    ensures
        (match r {
            Ok(text) => Ok(text@),
            Err(error) => Err(error@),
        }) == yaml_text(value@),
{
    write_yaml(value)
}

impl Json {
    /// Reads a JSON text.
    pub fn parse(bytes: &[u8]) -> (r: Option<Json>)
        ensures
            match r {
                Some(j) => parsed_json(bytes@) == Some(j@),
                None => parsed_json(bytes@) is None,
            },
    {
        parse_json(bytes)
    }

    /// The compact JSON text.
    pub fn to_text(&self) -> (r: String)
        ensures
            r@ == json_text(self@),
    {
        write_json(self)
    }

    /// A field of an object.
    pub fn get<'a>(&'a self, key: &str) -> (r: Option<&'a Json>)
        ensures
            model_of(r) == self@.get(key@),
    {
        match self {
            Json::Object(entries) => find_entry(entries, key),
            _ => None,
        }
    }

    /// An element of an array.
    pub fn nth(&self, index: usize) -> (r: Option<&Json>)
        ensures
            model_of(r) == self@.nth(index as int),
    {
        match self {
            Json::Array(items) => if index < items.len() {
                Some(&items[index])
            } else {
                None
            },
            _ => None,
        }
    }

    pub fn as_str(&self) -> (r: Option<&str>)
        ensures
            lent(r) == self@.text(),
    {
        match self {
            Json::Str(s) => Some(s.as_str()),
            _ => None,
        }
    }

    pub fn as_i64(&self) -> (r: Option<i64>)
        ensures
            match r {
                Some(i) => self@.whole() == Some(i as int),
                None => self@.whole() is None,
            },
    {
        match self {
            Json::Int(i) => Some(*i),
            _ => None,
        }
    }

    pub fn as_bool(&self) -> (r: Option<bool>)
        ensures
            r == self@.flag(),
    {
        match self {
            Json::Bool(b) => Some(*b),
            _ => None,
        }
    }

    pub fn as_array(&self) -> (r: Option<&Vec<Json>>)
        ensures
            match r {
                Some(v) => self@.items() == Some(models(v@)),
                None => self@.items() is None,
            },
    {
        match self {
            Json::Array(items) => {
                assert(self@->Array_0 =~= models(items@));
                Some(items)
            },
            _ => None,
        }
    }

    pub fn as_object(&self) -> (r: Option<&Vec<(String, Json)>>)
        ensures
            match r {
                Some(v) => self@.entries() == Some(entry_models(v@)),
                None => self@.entries() is None,
            },
    {
        match self {
            Json::Object(entries) => {
                assert(self@->Object_0 =~= entry_models(entries@));
                Some(entries)
            },
            _ => None,
        }
    }

    /// A copy.
    pub fn copy(&self) -> (r: Json)
        ensures
            r@ == self@,
        decreases self,
    {
        match self {
            Json::Null => Json::Null,
            Json::Bool(b) => Json::Bool(*b),
            Json::Int(i) => Json::Int(*i),
            Json::Decimal(s) => Json::Decimal(s.clone()),
            Json::Str(s) => Json::Str(s.clone()),
            Json::Array(items) => {
                let r = Json::Array(copy_items(items));
                assert(r@->Array_0 =~= self@->Array_0);
                r
            },
            Json::Object(entries) => {
                let r = Json::Object(copy_entries(entries));
                assert(r@->Object_0 =~= self@->Object_0);
                r
            },
        }
    }
}

fn copy_items(items: &Vec<Json>) -> (out: Vec<Json>)
    ensures
        out@.len() == items@.len(),
        forall|k: int| 0 <= k < out@.len() ==> (#[trigger] out@[k]).model() == items@[k].model(),
    decreases items,
{
    let mut out: Vec<Json> = Vec::new();
    let mut i: usize = 0;
    while i < items.len()
        invariant
            i <= items.len(),
            out@.len() == i,
            forall|k: int| 0 <= k < i ==> (#[trigger] out@[k]).model() == items@[k].model(),
        decreases items.len() - i,
    {
        assert(decreases_to!(*items => items[i as int]));
        out.push(items[i].copy());
        i += 1;
    }
    out
}

fn copy_entries(entries: &Vec<(String, Json)>) -> (out: Vec<(String, Json)>)
    ensures
        out@.len() == entries@.len(),
        forall|k: int|
            0 <= k < out@.len() ==> (#[trigger] out@[k]).0@ == entries@[k].0@ && out@[k].1.model()
                == entries@[k].1.model(),
    decreases entries,
{
    let mut out: Vec<(String, Json)> = Vec::new();
    let mut i: usize = 0;
    while i < entries.len()
        invariant
            i <= entries.len(),
            out@.len() == i,
            forall|k: int|
                0 <= k < i ==> (#[trigger] out@[k]).0@ == entries@[k].0@ && out@[k].1.model()
                    == entries@[k].1.model(),
        decreases entries.len() - i,
    {
        assert(decreases_to!(*entries => entries[i as int]));
        out.push((entries[i].0.clone(), entries[i].1.copy()));
        i += 1;
    }
    out
}

/// The value of the first entry under a key.
pub fn find_entry<'a>(entries: &'a Vec<(String, Json)>, key: &str) -> (r: Option<&'a Json>)
    ensures
        model_of(r) == lookup(entry_models(entries@), key@),
        model_of(r) == Json::Object(*entries)@.get(key@),
{
    let ghost all = entry_models(entries@);
    assert(Json::Object(*entries)@->Object_0 =~= all);
    let mut i: usize = 0;
    assert(all.skip(0) =~= all);
    while i < entries.len()
        invariant
            i <= entries.len(),
            all == entry_models(entries@),
            Json::Object(*entries)@.get(key@) == lookup(all, key@),
            lookup(all, key@) == lookup(all.skip(i as int), key@),
        decreases entries.len() - i,
    {
        assert(all.skip(i as int)[0] == all[i as int]);
        assert(all.skip(i as int).drop_first() =~= all.skip(i + 1));
        if same(entries[i].0.as_str(), key) {
            return Some(&entries[i].1);
        }
        i += 1;
    }
    None
}

/// A field of a value that may be absent.
pub fn field<'a>(j: Option<&'a Json>, key: &str) -> (r: Option<&'a Json>)
    ensures
        model_of(r) == part(model_of(j), key@),
{
    match j {
        Some(j) => j.get(key),
        None => None,
    }
}

/// The text of a value that may be absent.
pub fn string_at<'a>(j: Option<&'a Json>) -> (r: Option<&'a str>)
    ensures
        lent(r) == text_of(model_of(j)),
{
    match j {
        Some(j) => j.as_str(),
        None => None,
    }
}

/// The integer of a value that may be absent.
pub fn integer_at(j: Option<&Json>) -> (r: Option<i64>)
    ensures
        match r {
            Some(i) => int_of(model_of(j)) == Some(i as int),
            None => int_of(model_of(j)) is None,
        },
{
    match j {
        Some(j) => j.as_i64(),
        None => None,
    }
}

} // verus!
