//! Kinds of resources, the handful of them that the client names itself, and
//! objects.
use vstd::prelude::*;

use crate::base::dict::{row_less, row_of, Key, Row};
use crate::base::json::{Json, JsonView};
use crate::base::meta::{MetaView, ObjectMeta};
use crate::base::text::{same, three};

verus! {

/// A group, a version and a kind.
#[derive(Debug, PartialEq, Eq, Hash)]
pub struct GroupVersionKind {
    pub group: String,
    pub version: String,
    pub kind: String,
}

/// A group, a version and a kind, as a mathematical object.
pub struct GvkView {
    pub group: Seq<char>,
    pub version: Seq<char>,
    pub kind: Seq<char>,
}

impl View for GroupVersionKind {
    type V = GvkView;

    open spec fn view(&self) -> GvkView {
        GvkView { group: self.group@, version: self.version@, kind: self.kind@ }
    }
}

impl GroupVersionKind {
    pub fn gvk(group: &str, version: &str, kind: &str) -> (r: GroupVersionKind)
        ensures
            r@ == (GvkView { group: group@, version: version@, kind: kind@ }),
    {
        GroupVersionKind {
            group: group.to_owned(),
            version: version.to_owned(),
            kind: kind.to_owned(),
        }
    }

    pub fn same(&self, other: &GroupVersionKind) -> (r: bool)
        ensures
            r == (self@ == other@),
    {
        same(self.group.as_str(), other.group.as_str()) && same(
            self.version.as_str(),
            other.version.as_str(),
        ) && same(self.kind.as_str(), other.kind.as_str())
    }

    /// A copy.
    pub fn copy(&self) -> (r: GroupVersionKind)
        ensures
            r@ == self@,
    {
        GroupVersionKind {
            group: self.group.clone(),
            version: self.version.clone(),
            kind: self.kind.clone(),
        }
    }
}

impl Key for GroupVersionKind {
    open spec fn row(v: GvkView) -> Row {
        seq![Some(v.group), Some(v.version), Some(v.kind)]
    }

    proof fn row_injective(a: GvkView, b: GvkView) {
        let x = Self::row(a);
        let y = Self::row(b);
        assert(x[0] == y[0] && x[1] == y[1] && x[2] == y[2]);
    }

    fn less(&self, other: &Self) -> (r: bool) {
        let a: Vec<Option<&str>> = vec![
            Some(self.group.as_str()),
            Some(self.version.as_str()),
            Some(self.kind.as_str()),
        ];
        let b: Vec<Option<&str>> = vec![
            Some(other.group.as_str()),
            Some(other.version.as_str()),
            Some(other.kind.as_str()),
        ];
        assert(row_of(a@) =~= Self::row(self@));
        assert(row_of(b@) =~= Self::row(other@));
        row_less(&a, &b)
    }
}

/// What the API calls a kind, in the strings that build its paths.
#[derive(Debug, PartialEq, Eq, Hash)]
pub struct ApiResource {
    /// Empty for the core group.
    pub group: String,
    pub version: String,
    /// `v1` for the core group, `group/version` for any other.
    pub api_version: String,
    pub kind: String,
    pub plural: String,
}

/// What the API calls a kind, as a mathematical object.
pub struct ResourceView {
    pub group: Seq<char>,
    pub version: Seq<char>,
    pub api_version: Seq<char>,
    pub kind: Seq<char>,
    pub plural: Seq<char>,
}

impl View for ApiResource {
    type V = ResourceView;

    open spec fn view(&self) -> ResourceView {
        ResourceView {
            group: self.group@,
            version: self.version@,
            api_version: self.api_version@,
            kind: self.kind@,
            plural: self.plural@,
        }
    }
}

/// The version of a group as objects name it.
pub open spec fn api_version_of(group: Seq<char>, version: Seq<char>) -> Seq<char> {
    if group.len() == 0 {
        version
    } else {
        group + "/"@ + version
    }
}

/// The resource of a kind, under the given plural.
pub open spec fn resource_of(gvk: GvkView, plural: Seq<char>) -> ResourceView {
    ResourceView {
        group: gvk.group,
        version: gvk.version,
        api_version: api_version_of(gvk.group, gvk.version),
        kind: gvk.kind,
        plural,
    }
}

/// A resource of the core group.
pub open spec fn core_resource(kind: Seq<char>, plural: Seq<char>) -> ResourceView {
    ResourceView { group: ""@, version: "v1"@, api_version: "v1"@, kind, plural }
}

impl ApiResource {
    /// The resource of a kind, under the given plural.
    pub fn from_gvk_with_plural(gvk: &GroupVersionKind, plural: &str) -> (r: ApiResource)
        ensures
            r@ == resource_of(gvk@, plural@),
    {
        let api_version = if gvk.group.as_str().is_empty() {
            gvk.version.clone()
        } else {
            three(gvk.group.as_str(), "/", gvk.version.as_str())
        };
        ApiResource {
            group: gvk.group.clone(),
            version: gvk.version.clone(),
            api_version,
            kind: gvk.kind.clone(),
            plural: plural.to_owned(),
        }
    }

    /// A copy.
    pub fn copy(&self) -> (r: ApiResource)
        ensures
            r@ == self@,
    {
        ApiResource {
            group: self.group.clone(),
            version: self.version.clone(),
            api_version: self.api_version.clone(),
            kind: self.kind.clone(),
            plural: self.plural.clone(),
        }
    }
}

/// `kube::api::ApiResource::erase` of `k8s_openapi`'s `Pod`: the strings that
/// the type declares.
#[verifier::external_body]
fn erased_pod() -> (r: ApiResource)
    ensures
        r@ == core_resource("Pod"@, "pods"@),
{
    let r = kube::api::ApiResource::erase::<k8s_openapi::api::core::v1::Pod>(&());
    ApiResource {
        group: r.group,
        version: r.version,
        api_version: r.api_version,
        kind: r.kind,
        plural: r.plural,
    }
}

/// `kube::api::ApiResource::erase` of `k8s_openapi`'s `Namespace`: the strings
/// that the type declares.
#[verifier::external_body]
fn erased_namespace() -> (r: ApiResource)
    ensures
        r@ == core_resource("Namespace"@, "namespaces"@),
{
    let r = kube::api::ApiResource::erase::<k8s_openapi::api::core::v1::Namespace>(&());
    ApiResource {
        group: r.group,
        version: r.version,
        api_version: r.api_version,
        kind: r.kind,
        plural: r.plural,
    }
}

/// `kube::api::ApiResource::erase` of `k8s_openapi`'s core `Event`: the strings
/// that the type declares.
#[verifier::external_body]
fn erased_event() -> (r: ApiResource)
    ensures
        r@ == core_resource("Event"@, "events"@),
{
    let r = kube::api::ApiResource::erase::<k8s_openapi::api::core::v1::Event>(&());
    ApiResource {
        group: r.group,
        version: r.version,
        api_version: r.api_version,
        kind: r.kind,
        plural: r.plural,
    }
}

pub fn pod() -> (r: ApiResource)
    ensures
        r@ == core_resource("Pod"@, "pods"@),
{
    erased_pod()
}

pub fn namespace() -> (r: ApiResource)
    ensures
        r@ == core_resource("Namespace"@, "namespaces"@),
{
    erased_namespace()
}

pub fn event() -> (r: ApiResource)
    ensures
        r@ == core_resource("Event"@, "events"@),
{
    erased_event()
}

/// An object of any kind: typed metadata, and the rest as JSON.
#[derive(Debug, PartialEq, Eq)]
pub struct DynamicObject {
    /// The `apiVersion` and `kind`, where they came with the object.
    pub types: Option<(String, String)>,
    pub metadata: ObjectMeta,
    pub data: Json,
}

/// An object, as a mathematical object.
pub struct ObjectView {
    pub types: Option<(Seq<char>, Seq<char>)>,
    pub metadata: MetaView,
    pub data: JsonView,
}

impl View for DynamicObject {
    type V = ObjectView;

    open spec fn view(&self) -> ObjectView {
        ObjectView {
            types: match self.types {
                Some((api_version, kind)) => Some((api_version@, kind@)),
                None => None,
            },
            metadata: self.metadata@,
            data: self.data@,
        }
    }
}

} // verus!
