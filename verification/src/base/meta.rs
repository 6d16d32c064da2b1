//! What every object has: its metadata.
use vstd::prelude::*;

use crate::base::json::{entry_models, models, Json, JsonView};
use crate::base::text::{each, held};
use crate::base::time::{api_text, instant_of, Timestamp};

verus! {

/// A reference from an object to the one that owns it.
#[derive(Debug, PartialEq, Eq)]
pub struct OwnerReference {
    pub api_version: String,
    pub block_owner_deletion: Option<bool>,
    pub controller: Option<bool>,
    pub kind: String,
    pub name: String,
    pub uid: String,
}

/// An owner reference, as a mathematical object.
pub struct OwnerView {
    pub api_version: Seq<char>,
    pub block_owner_deletion: Option<bool>,
    pub controller: Option<bool>,
    pub kind: Seq<char>,
    pub name: Seq<char>,
    pub uid: Seq<char>,
}

impl View for OwnerReference {
    type V = OwnerView;

    open spec fn view(&self) -> OwnerView {
        OwnerView {
            api_version: self.api_version@,
            block_owner_deletion: self.block_owner_deletion,
            controller: self.controller,
            kind: self.kind@,
            name: self.name@,
            uid: self.uid@,
        }
    }
}

/// The metadata of an object. Labels and annotations stand in the order of
/// their keys.
#[derive(Debug, PartialEq, Eq)]
pub struct ObjectMeta {
    pub annotations: Option<Vec<(String, String)>>,
    pub creation_timestamp: Option<Timestamp>,
    pub deletion_grace_period_seconds: Option<i64>,
    pub deletion_timestamp: Option<Timestamp>,
    pub finalizers: Option<Vec<String>>,
    pub generate_name: Option<String>,
    pub generation: Option<i64>,
    pub labels: Option<Vec<(String, String)>>,
    /// Which manager owns which field, as the API wrote it.
    pub managed_fields: Option<Vec<Json>>,
    pub name: Option<String>,
    pub namespace: Option<String>,
    pub owner_references: Option<Vec<OwnerReference>>,
    pub resource_version: Option<String>,
    pub self_link: Option<String>,
    pub uid: Option<String>,
}

/// Metadata, as a mathematical object.
pub struct MetaView {
    pub annotations: Option<Seq<(Seq<char>, Seq<char>)>>,
    pub creation_timestamp: Option<int>,
    pub deletion_grace_period_seconds: Option<i64>,
    pub deletion_timestamp: Option<int>,
    pub finalizers: Option<Seq<Seq<char>>>,
    pub generate_name: Option<Seq<char>>,
    pub generation: Option<i64>,
    pub labels: Option<Seq<(Seq<char>, Seq<char>)>>,
    pub managed_fields: Option<Seq<JsonView>>,
    pub name: Option<Seq<char>>,
    pub namespace: Option<Seq<char>>,
    pub owner_references: Option<Seq<OwnerView>>,
    pub resource_version: Option<Seq<char>>,
    pub self_link: Option<Seq<char>>,
    pub uid: Option<Seq<char>>,
}

/// What the pairs of a map hold.
pub open spec fn pairs(list: Seq<(String, String)>) -> Seq<(Seq<char>, Seq<char>)> {
    list.map_values(|e: (String, String)| (e.0@, e.1@))
}

/// What an optional map holds.
pub open spec fn held_pairs(list: Option<Vec<(String, String)>>) -> Option<
    Seq<(Seq<char>, Seq<char>)>,
> {
    match list {
        Some(list) => Some(pairs(list@)),
        None => None,
    }
}

/// What a list of owner references holds.
pub open spec fn owners(list: Seq<OwnerReference>) -> Seq<OwnerView> {
    list.map_values(|o: OwnerReference| o@)
}

impl View for ObjectMeta {
    type V = MetaView;

    open spec fn view(&self) -> MetaView {
        MetaView {
            annotations: held_pairs(self.annotations),
            creation_timestamp: instant_of(self.creation_timestamp),
            deletion_grace_period_seconds: self.deletion_grace_period_seconds,
            deletion_timestamp: instant_of(self.deletion_timestamp),
            finalizers: match self.finalizers {
                Some(list) => Some(each(list@)),
                None => None,
            },
            generate_name: held(self.generate_name),
            generation: self.generation,
            labels: held_pairs(self.labels),
            managed_fields: match self.managed_fields {
                Some(list) => Some(models(list@)),
                None => None,
            },
            name: held(self.name),
            namespace: held(self.namespace),
            owner_references: match self.owner_references {
                Some(list) => Some(owners(list@)),
                None => None,
            },
            resource_version: held(self.resource_version),
            self_link: held(self.self_link),
            uid: held(self.uid),
        }
    }
}

/// Metadata in which nothing is set.
pub open spec fn no_meta() -> MetaView {
    MetaView {
        annotations: None,
        creation_timestamp: None,
        deletion_grace_period_seconds: None,
        deletion_timestamp: None,
        finalizers: None,
        generate_name: None,
        generation: None,
        labels: None,
        managed_fields: None,
        name: None,
        namespace: None,
        owner_references: None,
        resource_version: None,
        self_link: None,
        uid: None,
    }
}

impl Default for ObjectMeta {
    fn default() -> (r: ObjectMeta)
        ensures
            r@ == no_meta(),
    {
        ObjectMeta {
            annotations: None,
            creation_timestamp: None,
            deletion_grace_period_seconds: None,
            deletion_timestamp: None,
            finalizers: None,
            generate_name: None,
            generation: None,
            labels: None,
            managed_fields: None,
            name: None,
            namespace: None,
            owner_references: None,
            resource_version: None,
            self_link: None,
            uid: None,
        }
    }
}

/// One entry of a JSON object, where there is a value for it.
pub open spec fn entry(key: Seq<char>, value: Option<JsonView>) -> Seq<(Seq<char>, JsonView)> {
    match value {
        Some(value) => seq![(key, value)],
        None => Seq::empty(),
    }
}

pub open spec fn json_str(s: Option<Seq<char>>) -> Option<JsonView> {
    match s {
        Some(s) => Some(JsonView::Str(s)),
        None => None,
    }
}

pub open spec fn json_int(i: Option<i64>) -> Option<JsonView> {
    match i {
        Some(i) => Some(JsonView::Int(i as int)),
        None => None,
    }
}

pub open spec fn json_bool(b: Option<bool>) -> Option<JsonView> {
    match b {
        Some(b) => Some(JsonView::Bool(b)),
        None => None,
    }
}

pub open spec fn json_time(t: Option<int>) -> Option<JsonView> {
    match t {
        Some(t) => Some(JsonView::Str(api_text(t))),
        None => None,
    }
}

pub open spec fn json_map(map: Option<Seq<(Seq<char>, Seq<char>)>>) -> Option<JsonView> {
    match map {
        Some(map) => Some(
            JsonView::Object(map.map_values(|e: (Seq<char>, Seq<char>)| (e.0, JsonView::Str(e.1)))),
        ),
        None => None,
    }
}

pub open spec fn json_strs(list: Option<Seq<Seq<char>>>) -> Option<JsonView> {
    match list {
        Some(list) => Some(JsonView::Array(list.map_values(|s: Seq<char>| JsonView::Str(s)))),
        None => None,
    }
}

/// An owner reference as JSON.
pub open spec fn owner_json(o: OwnerView) -> JsonView {
    JsonView::Object(
        entry("apiVersion"@, Some(JsonView::Str(o.api_version))) + entry(
            "blockOwnerDeletion"@,
            json_bool(o.block_owner_deletion),
        ) + entry("controller"@, json_bool(o.controller)) + entry(
            "kind"@,
            Some(JsonView::Str(o.kind)),
        ) + entry("name"@, Some(JsonView::Str(o.name))) + entry("uid"@, Some(JsonView::Str(o.uid))),
    )
}

pub open spec fn json_owners(list: Option<Seq<OwnerView>>) -> Option<JsonView> {
    match list {
        Some(list) => Some(JsonView::Array(list.map_values(|o: OwnerView| owner_json(o)))),
        None => None,
    }
}

pub open spec fn json_list(list: Option<Seq<JsonView>>) -> Option<JsonView> {
    match list {
        Some(list) => Some(JsonView::Array(list)),
        None => None,
    }
}

/// The metadata as the API writes it: what is set, in the order of the names.
pub open spec fn meta_json(m: MetaView) -> JsonView {
    JsonView::Object(
        entry("annotations"@, json_map(m.annotations)) + entry(
            "creationTimestamp"@,
            json_time(m.creation_timestamp),
        ) + entry("deletionGracePeriodSeconds"@, json_int(m.deletion_grace_period_seconds)) + entry(
            "deletionTimestamp"@,
            json_time(m.deletion_timestamp),
        ) + entry("finalizers"@, json_strs(m.finalizers)) + entry(
            "generateName"@,
            json_str(m.generate_name),
        ) + entry("generation"@, json_int(m.generation)) + entry("labels"@, json_map(m.labels))
            + entry("managedFields"@, json_list(m.managed_fields)) + entry("name"@, json_str(m.name))
            + entry("namespace"@, json_str(m.namespace)) + entry(
            "ownerReferences"@,
            json_owners(m.owner_references),
        ) + entry("resourceVersion"@, json_str(m.resource_version)) + entry(
            "selfLink"@,
            json_str(m.self_link),
        ) + entry("uid"@, json_str(m.uid)),
    )
}

/// Appends one entry, where there is a value for it.
fn put(entries: &mut Vec<(String, Json)>, key: &str, value: Option<Json>)
    ensures
        entry_models(final(entries)@) == entry_models(old(entries)@) + entry(
            key@,
            match value {
                Some(j) => Some(j@),
                None => None,
            },
        ),
{
    match value {
        Some(value) => {
            let ghost before = entries@;
            let ghost added = value@;
            entries.push((key.to_owned(), value));
            assert(entry_models(entries@) =~= entry_models(before) + seq![(key@, added)]);
        },
        None => {
            assert(entry_models(entries@) =~= entry_models(entries@) + Seq::empty());
        },
    }
}

/// An object made of entries.
fn object(entries: Vec<(String, Json)>) -> (r: Json)
    ensures
        r@ == JsonView::Object(entry_models(entries@)),
{
    let r = Json::Object(entries);
    assert(r@->Object_0 =~= entry_models(entries@));
    r
}

/// An array made of values.
fn array(items: Vec<Json>) -> (r: Json)
    ensures
        r@ == JsonView::Array(models(items@)),
{
    let r = Json::Array(items);
    assert(r@->Array_0 =~= models(items@));
    r
}

fn str_value(s: &Option<String>) -> (r: Option<Json>)
    ensures
        (match r {
            Some(j) => Some(j@),
            None => None,
        }) == json_str(held(*s)),
{
    match s {
        Some(s) => Some(Json::Str(s.clone())),
        None => None,
    }
}

fn int_value(i: Option<i64>) -> (r: Option<Json>)
    ensures
        (match r {
            Some(j) => Some(j@),
            None => None,
        }) == json_int(i),
{
    match i {
        Some(i) => Some(Json::Int(i)),
        None => None,
    }
}

fn bool_value(b: Option<bool>) -> (r: Option<Json>)
    ensures
        (match r {
            Some(j) => Some(j@),
            None => None,
        }) == json_bool(b),
{
    match b {
        Some(b) => Some(Json::Bool(b)),
        None => None,
    }
}

fn time_value(t: &Option<Timestamp>) -> (r: Option<Json>)
    ensures
        (match r {
            Some(j) => Some(j@),
            None => None,
        }) == json_time(instant_of(*t)),
{
    match t {
        Some(t) => Some(Json::Str(t.to_text())),
        None => None,
    }
}

fn map_value(map: &Option<Vec<(String, String)>>) -> (r: Option<Json>)
    ensures
        (match r {
            Some(j) => Some(j@),
            None => None,
        }) == json_map(held_pairs(*map)),
{
    match map {
        Some(map) => {
            let mut out: Vec<(String, Json)> = Vec::new();
            let mut i: usize = 0;
            while i < map.len()
                invariant
                    i <= map.len(),
                    out@.len() == i,
                    forall|k: int|
                        0 <= k < i ==> (#[trigger] out@[k]).0@ == map@[k].0@ && out@[k].1@
                            == JsonView::Str(map@[k].1@),
                decreases map.len() - i,
            {
                out.push((map[i].0.clone(), Json::Str(map[i].1.clone())));
                i += 1;
            }
            assert(entry_models(out@) =~= pairs(map@).map_values(
                |e: (Seq<char>, Seq<char>)| (e.0, JsonView::Str(e.1)),
            ));
            Some(object(out))
        },
        None => None,
    }
}

fn strs_value(list: &Option<Vec<String>>) -> (r: Option<Json>)
    ensures
        (match r {
            Some(j) => Some(j@),
            None => None,
        }) == json_strs(
            match list {
                Some(list) => Some(each(list@)),
                None => None,
            },
        ),
{
    match list {
        Some(list) => {
            let mut out: Vec<Json> = Vec::new();
            let mut i: usize = 0;
            while i < list.len()
                invariant
                    i <= list.len(),
                    out@.len() == i,
                    forall|k: int| 0 <= k < i ==> (#[trigger] out@[k])@ == JsonView::Str(list@[k]@),
                decreases list.len() - i,
            {
                out.push(Json::Str(list[i].clone()));
                i += 1;
            }
            assert(models(out@) =~= each(list@).map_values(|s: Seq<char>| JsonView::Str(s)));
            Some(array(out))
        },
        None => None,
    }
}

fn list_value(list: &Option<Vec<Json>>) -> (r: Option<Json>)
    ensures
        (match r {
            Some(j) => Some(j@),
            None => None,
        }) == json_list(
            match list {
                Some(list) => Some(models(list@)),
                None => None,
            },
        ),
{
    match list {
        Some(list) => {
            let mut out: Vec<Json> = Vec::new();
            let mut i: usize = 0;
            while i < list.len()
                invariant
                    i <= list.len(),
                    out@.len() == i,
                    forall|k: int| 0 <= k < i ==> (#[trigger] out@[k])@ == list@[k]@,
                decreases list.len() - i,
            {
                out.push(list[i].copy());
                i += 1;
            }
            assert(models(out@) =~= models(list@));
            Some(array(out))
        },
        None => None,
    }
}

impl OwnerReference {
    /// The reference as JSON.
    pub fn to_json(&self) -> (r: Json)
        ensures
            r@ == owner_json(self@),
    {
        let mut out: Vec<(String, Json)> = Vec::new();
        put(&mut out, "apiVersion", Some(Json::Str(self.api_version.clone())));
        put(&mut out, "blockOwnerDeletion", bool_value(self.block_owner_deletion));
        put(&mut out, "controller", bool_value(self.controller));
        put(&mut out, "kind", Some(Json::Str(self.kind.clone())));
        put(&mut out, "name", Some(Json::Str(self.name.clone())));
        put(&mut out, "uid", Some(Json::Str(self.uid.clone())));
        assert(owner_json(self@)->Object_0 =~= entry_models(out@));
        object(out)
    }
}

fn owners_value(list: &Option<Vec<OwnerReference>>) -> (r: Option<Json>)
    ensures
        (match r {
            Some(j) => Some(j@),
            None => None,
        }) == json_owners(
            match list {
                Some(list) => Some(owners(list@)),
                None => None,
            },
        ),
{
    match list {
        Some(list) => {
            let mut out: Vec<Json> = Vec::new();
            let mut i: usize = 0;
            while i < list.len()
                invariant
                    i <= list.len(),
                    out@.len() == i,
                    forall|k: int| 0 <= k < i ==> (#[trigger] out@[k])@ == owner_json(list@[k]@),
                decreases list.len() - i,
            {
                out.push(list[i].to_json());
                i += 1;
            }
            assert(models(out@) =~= owners(list@).map_values(|o: OwnerView| owner_json(o)));
            Some(array(out))
        },
        None => None,
    }
}

impl ObjectMeta {
    /// The metadata as JSON.
    pub fn to_json(&self) -> (r: Json)
        ensures
            r@ == meta_json(self@),
    {
        let mut out: Vec<(String, Json)> = Vec::new();
        put(&mut out, "annotations", map_value(&self.annotations));
        put(&mut out, "creationTimestamp", time_value(&self.creation_timestamp));
        put(
            &mut out,
            "deletionGracePeriodSeconds",
            int_value(self.deletion_grace_period_seconds),
        );
        put(&mut out, "deletionTimestamp", time_value(&self.deletion_timestamp));
        put(&mut out, "finalizers", strs_value(&self.finalizers));
        put(&mut out, "generateName", str_value(&self.generate_name));
        put(&mut out, "generation", int_value(self.generation));
        put(&mut out, "labels", map_value(&self.labels));
        put(&mut out, "managedFields", list_value(&self.managed_fields));
        put(&mut out, "name", str_value(&self.name));
        put(&mut out, "namespace", str_value(&self.namespace));
        put(&mut out, "ownerReferences", owners_value(&self.owner_references));
        put(&mut out, "resourceVersion", str_value(&self.resource_version));
        put(&mut out, "selfLink", str_value(&self.self_link));
        put(&mut out, "uid", str_value(&self.uid));
        assert(meta_json(self@)->Object_0 =~= entry_models(out@));
        object(out)
    }
}

} // verus!
