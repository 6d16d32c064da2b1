//! Helm releases, read out of the cluster.
//!
//! A release is a Secret of type `helm.sh/release.v1`, one per revision. Its
//! payload is base64 twice (Helm encodes the gzipped JSON, and the API encodes
//! the Secret value on top of that), then gzip, then JSON.
use vstd::prelude::*;

use base64::engine::general_purpose::STANDARD;
use base64::Engine;
use std::io::Read;

use crate::base::dict::{
    map_of_keys, map_of_value, row_below, row_below_total, row_less, row_of, Dict, Key, Row,
};
use crate::base::json::{
    field, int_of, integer_at, model_of, parsed_json, part, string_at, text_of, Json, JsonView,
};
use crate::base::list::{kept, kept_bounds, kept_next, ordered_lists_agree};
use crate::base::text::{held, lent, three, trim, trimmed, two};
use crate::k8s::resources::{DynamicObject, ObjectView};

verus! {

/// The Secret type Helm writes.
pub const RELEASE_TYPE: &'static str = "helm.sh/release.v1";

/// Two layers of base64 is what a release actually has; the bound is a guard,
/// not a guess.
pub const MAX_LAYERS: usize = 4;

/// One release, at one revision.
#[derive(Debug, PartialEq, Eq)]
pub struct Release {
    pub name: String,
    pub namespace: String,
    pub revision: i64,
    /// `deployed`, `failed`, `superseded`, `pending-upgrade`...
    pub status: String,
    /// `argo-workflows-0.45.0`, as `helm list` prints it.
    pub chart: String,
    /// The version of the thing the chart installs.
    pub app_version: String,
    /// RFC3339, as Helm wrote it.
    pub updated: Option<String>,
}

/// One release, as a mathematical object.
pub struct ReleaseView {
    pub name: Seq<char>,
    pub namespace: Seq<char>,
    pub revision: int,
    pub status: Seq<char>,
    pub chart: Seq<char>,
    pub app_version: Seq<char>,
    pub updated: Option<Seq<char>>,
}

impl View for Release {
    type V = ReleaseView;

    open spec fn view(&self) -> ReleaseView {
        ReleaseView {
            name: self.name@,
            namespace: self.namespace@,
            revision: self.revision as int,
            status: self.status@,
            chart: self.chart@,
            app_version: self.app_version@,
            updated: held(self.updated),
        }
    }
}

/// What a list of releases stands for.
pub open spec fn release_views(list: Seq<Release>) -> Seq<ReleaseView> {
    list.map_values(|r: Release| r@)
}

impl Release {
    /// A copy.
    pub fn copy(&self) -> (r: Release)
        ensures
            r@ == self@,
    {
        Release {
            name: self.name.clone(),
            namespace: self.namespace.clone(),
            revision: self.revision,
            status: self.status.clone(),
            chart: self.chart.clone(),
            app_version: self.app_version.clone(),
            updated: self.updated.clone(),
        }
    }
}

/// What bytes decode to as standard base64 with padding.
pub uninterp spec fn base64_decoded(bytes: Seq<u8>) -> Option<Seq<u8>>;

/// `base64`'s `Engine::decode` of the `STANDARD` engine, under a name: the
/// decoded bytes, nothing where the input is no base64.
#[verifier::external_body]
fn decode_base64(bytes: &Vec<u8>) -> (r: Option<Vec<u8>>)
    ensures
        (match r {
            Some(out) => Some(out@),
            None => None,
        }) == base64_decoded(bytes@),
{
    match STANDARD.decode(bytes) {
        Ok(out) => Some(out),
        Err(_) => None,
    }
}

/// What bytes decompress to as one gzip member.
pub uninterp spec fn gunzipped(bytes: Seq<u8>) -> Option<Seq<u8>>;

/// `flate2::read::GzDecoder` read to its end, under a name: the decompressed
/// bytes, nothing where the input is no gzip.
#[verifier::external_body]
fn gunzip(bytes: &Vec<u8>) -> (r: Option<Vec<u8>>)
    ensures
        (match r {
            Some(out) => Some(out@),
            None => None,
        }) == gunzipped(bytes@),
{
    let mut out: Vec<u8> = Vec::new();
    match flate2::read::GzDecoder::new(&bytes[..]).read_to_end(&mut out) {
        Ok(_) => Some(out),
        Err(_) => None,
    }
}

/// The white space of ASCII.
pub open spec fn ascii_space(byte: u8) -> bool {
    byte == 0x20 || byte == 0x09 || byte == 0x0a || byte == 0x0c || byte == 0x0d
}

/// Whether bytes begin with gzip's magic number.
pub open spec fn is_gzip(bytes: Seq<u8>) -> bool {
    bytes.len() >= 2 && bytes[0] == 0x1f && bytes[1] == 0x8b
}

/// Whether the first byte from `k` on that is no white space opens an object.
pub open spec fn opens_object(bytes: Seq<u8>, k: int) -> bool
    decreases bytes.len() - k,
{
    if k >= bytes.len() {
        false
    } else if ascii_space(bytes[k]) {
        opens_object(bytes, k + 1)
    } else {
        bytes[k] == 0x7b
    }
}

/// The bytes of a JSON object: as they are, or decompressed.
pub open spec fn inflated(bytes: Seq<u8>) -> Option<Seq<u8>> {
    if is_gzip(bytes) {
        gunzipped(bytes)
    } else if opens_object(bytes, 0) {
        Some(bytes)
    } else {
        None
    }
}

/// The bytes of a JSON object inside at most `layers` layers, of which the first
/// stands for the bytes themselves and each further one for a base64 layer.
pub open spec fn peeled(bytes: Seq<u8>, layers: nat) -> Option<Seq<u8>>
    decreases layers,
{
    if layers == 0 {
        None
    } else {
        match inflated(bytes) {
            Some(json) => Some(json),
            None => match base64_decoded(bytes) {
                Some(inner) => peeled(inner, (layers - 1) as nat),
                None => None,
            },
        }
    }
}

/// The JSON inside a payload.
pub open spec fn payload_json(payload: Seq<char>) -> Option<JsonView> {
    match peeled(vstd::utf8::encode_utf8(trimmed(payload)), MAX_LAYERS as nat) {
        Some(json) => parsed_json(json),
        None => None,
    }
}

/// What a layer of a payload is.
#[derive(Debug, Clone, Copy, PartialEq, Eq, Structural)]
pub enum Layer {
    Gzip,
    Object,
    /// Anything else, which has to be base64.
    Encoded,
}

/// Tells what a layer of a payload is. Very old releases were not gzipped at
/// all, which is why the magic number is checked rather than assumed.
pub fn layer(bytes: &Vec<u8>) -> (r: Layer)
    ensures
        r == (if is_gzip(bytes@) {
            Layer::Gzip
        } else if opens_object(bytes@, 0) {
            Layer::Object
        } else {
            Layer::Encoded
        }),
{
    if bytes.len() >= 2 && bytes[0] == 0x1f && bytes[1] == 0x8b {
        return Layer::Gzip;
    }
    let mut i: usize = 0;
    while i < bytes.len()
        invariant
            i <= bytes.len(),
            !is_gzip(bytes@),
            opens_object(bytes@, 0) == opens_object(bytes@, i as int),
        decreases bytes.len() - i,
    {
        let byte: u8 = bytes[i];
        let space = byte == 0x20 || byte == 0x09 || byte == 0x0a || byte == 0x0c || byte == 0x0d;
        if !space {
            return if byte == 0x7b {
                Layer::Object
            } else {
                Layer::Encoded
            };
        }
        i += 1;
    }
    Layer::Encoded
}

/// The bytes as JSON, if they are JSON or gzipped JSON.
pub fn inflate(bytes: &Vec<u8>) -> (r: Option<Vec<u8>>)
    ensures
        (match r {
            Some(out) => Some(out@),
            None => None,
        }) == inflated(bytes@),
{
    match layer(bytes) {
        Layer::Gzip => gunzip(bytes),
        Layer::Object => Some(copied(bytes)),
        Layer::Encoded => None,
    }
}

fn copied(bytes: &Vec<u8>) -> (out: Vec<u8>)
    ensures
        out@ == bytes@,
{
    let mut out: Vec<u8> = Vec::new();
    let mut i: usize = 0;
    while i < bytes.len()
        invariant
            i <= bytes.len(),
            out@ == bytes@.take(i as int),
        decreases bytes.len() - i,
    {
        out.push(bytes[i]);
        assert(bytes@.take(i + 1) =~= bytes@.take(i as int).push(bytes@[i as int]));
        i += 1;
    }
    assert(bytes@.take(i as int) =~= bytes@);
    out
}

/// Unwraps Helm's payload: base64 until it stops being base64, then gzip when
/// present, then JSON.
///
/// Peeled rather than counted, because the number of layers is not a constant
/// anybody documents.
pub fn decode(payload: &str) -> (r: Option<Json>)
    ensures
        (match r {
            Some(json) => Some(json@),
            None => None,
        }) == payload_json(payload@),
{
    let text = trim(payload);
    let mut bytes: Vec<u8> = vstd::slice::slice_to_vec(text.as_str().as_bytes());
    let ghost start = bytes@;
    let mut left: usize = MAX_LAYERS;
    while left > 0
        invariant
            left <= MAX_LAYERS,
            start == vstd::utf8::encode_utf8(trimmed(payload@)),
            peeled(start, MAX_LAYERS as nat) == peeled(bytes@, left as nat),
        decreases left,
    {
        if let Some(json) = inflate(&bytes) {
            return Json::parse(json.as_slice());
        }
        match decode_base64(&bytes) {
            Some(inner) => {
                bytes = inner;
            },
            None => return None,
        }
        left -= 1;
    }
    None
}

/// A text of a field, where it is not empty.
pub open spec fn filled_text(node: Option<JsonView>, name: Seq<char>) -> Option<Seq<char>> {
    match text_of(part(node, name)) {
        Some(text) => if text.len() > 0 {
            Some(text)
        } else {
            None
        },
        None => None,
    }
}

pub open spec fn or_else(text: Option<Seq<char>>, other: Seq<char>) -> Seq<char> {
    match text {
        Some(text) => text,
        None => other,
    }
}

/// The release that decoded JSON describes: nothing where it names neither
/// itself nor its chart. The namespace is the Secret's where it names none.
pub open spec fn release_of(json: JsonView, namespace: Option<Seq<char>>) -> Option<ReleaseView> {
    let info = json.get("info"@);
    let chart = part(json.get("chart"@), "metadata"@);
    match (filled_text(chart, "name"@), text_of(json.get("name"@))) {
        (Some(chart_name), Some(name)) => Some(
            ReleaseView {
                name,
                namespace: or_else(
                    match text_of(json.get("namespace"@)) {
                        Some(own) => Some(own),
                        None => namespace,
                    },
                    Seq::empty(),
                ),
                revision: match int_of(json.get("version"@)) {
                    Some(revision) => revision,
                    None => 0,
                },
                status: or_else(filled_text(info, "status"@), "unknown"@),
                chart: match filled_text(chart, "version"@) {
                    Some(version) => chart_name + "-"@ + version,
                    None => chart_name,
                },
                app_version: or_else(filled_text(chart, "appVersion"@), Seq::empty()),
                updated: filled_text(info, "last_deployed"@),
            },
        ),
        _ => None,
    }
}

/// The payload of a release Secret.
pub open spec fn payload_of(data: JsonView) -> Option<Seq<char>> {
    text_of(part(data.get("data"@), "release"@))
}

/// The release that a Secret holds.
pub open spec fn secret_release(secret: ObjectView) -> Option<ReleaseView> {
    match payload_of(secret.data) {
        Some(payload) => match payload_json(payload) {
            Some(json) => release_of(json, secret.metadata.namespace),
            None => None,
        },
        None => None,
    }
}

fn text(node: Option<&Json>, name: &str) -> (r: Option<String>)
    ensures
        held(r) == filled_text(model_of(node), name@),
{
    match string_at(field(node, name)) {
        Some(text) => if text.is_empty() {
            None
        } else {
            Some(text.to_owned())
        },
        None => None,
    }
}

/// Reads a release out of its decoded JSON.
pub fn describe(release: &Json, namespace: Option<&str>) -> (r: Option<Release>)
    ensures
        (match r {
            Some(release) => Some(release@),
            None => None,
        }) == release_of(release@, lent(namespace)),
{
    let info = release.get("info");
    let metadata = field(release.get("chart"), "metadata");
    let (chart_name, name) = match (text(metadata, "name"), string_at(release.get("name"))) {
        (Some(chart_name), Some(name)) => (chart_name, name),
        _ => return None,
    };
    let own_namespace = match string_at(release.get("namespace")) {
        Some(own) => own.to_owned(),
        None => match namespace {
            Some(namespace) => namespace.to_owned(),
            None => String::new(),
        },
    };
    let revision: i64 = match integer_at(release.get("version")) {
        Some(revision) => revision,
        None => 0,
    };
    let status = match text(info, "status") {
        Some(status) => status,
        None => "unknown".to_owned(),
    };
    let chart = match text(metadata, "version") {
        Some(version) => three(chart_name.as_str(), "-", version.as_str()),
        None => chart_name,
    };
    let app_version = match text(metadata, "appVersion") {
        Some(version) => version,
        None => String::new(),
    };
    Some(
        Release {
            name: name.to_owned(),
            namespace: own_namespace,
            revision,
            status,
            chart,
            app_version,
            updated: text(info, "last_deployed"),
        },
    )
}

/// Reads one release Secret.
pub fn read(secret: &DynamicObject) -> (r: Option<Release>)
    ensures
        (match r {
            Some(release) => Some(release@),
            None => None,
        }) == secret_release(secret@),
{
    let payload = match string_at(field(secret.data.get("data"), "release")) {
        Some(payload) => payload,
        None => return None,
    };
    match decode(payload) {
        Some(json) => describe(
            &json,
            crate::base::text::borrowed(&secret.metadata.namespace),
        ),
        None => None,
    }
}

/// What releases are told apart by: namespace and name.
pub struct ReleaseKey {
    pub namespace: String,
    pub name: String,
}

impl View for ReleaseKey {
    type V = (Seq<char>, Seq<char>);

    open spec fn view(&self) -> (Seq<char>, Seq<char>) {
        (self.namespace@, self.name@)
    }
}

impl Key for ReleaseKey {
    open spec fn row(v: (Seq<char>, Seq<char>)) -> Row {
        seq![Some(v.0), Some(v.1)]
    }

    proof fn row_injective(a: (Seq<char>, Seq<char>), b: (Seq<char>, Seq<char>)) {
        assert(Self::row(a)[0] == Self::row(b)[0]);
        assert(Self::row(a)[1] == Self::row(b)[1]);
    }

    fn less(&self, other: &Self) -> (r: bool) {
        let a: Vec<Option<&str>> = vec![Some(self.namespace.as_str()), Some(self.name.as_str())];
        let b: Vec<Option<&str>> = vec![Some(other.namespace.as_str()), Some(other.name.as_str())];
        assert(row_of(a@) =~= Self::row(self@));
        assert(row_of(b@) =~= Self::row(other@));
        row_less(&a, &b)
    }
}

pub open spec fn key_of(r: ReleaseView) -> (Seq<char>, Seq<char>) {
    (r.namespace, r.name)
}

/// The newest revision of each release; of two with the same revision the
/// earlier stays.
pub open spec fn newest(list: Seq<ReleaseView>) -> Map<(Seq<char>, Seq<char>), ReleaseView>
    decreases list.len(),
{
    if list.len() == 0 {
        Map::empty()
    } else {
        let before = newest(list.drop_last());
        let key = key_of(list.last());
        if before.dom().contains(key) && before[key].revision >= list.last().revision {
            before
        } else {
            before.insert(key, list.last())
        }
    }
}

/// Whether a list holds exactly the values of a map, by namespace and name.
pub open spec fn lists_by_name(
    out: Seq<ReleaseView>,
    map: Map<(Seq<char>, Seq<char>), ReleaseView>,
) -> bool {
    &&& forall|i: int|
        0 <= i < out.len() ==> map.dom().contains(key_of(#[trigger] out[i])) && map[key_of(out[i])]
            == out[i]
    &&& forall|k: (Seq<char>, Seq<char>)| #[trigger]
        map.dom().contains(k) ==> exists|i: int|
            0 <= i < out.len() && key_of(#[trigger] out[i]) == k
    &&& forall|i: int, j: int|
        0 <= i < j < out.len() ==> row_below(
            ReleaseKey::row(key_of(#[trigger] out[i])),
            ReleaseKey::row(key_of(#[trigger] out[j])),
        )
}

/// Every release is listed once, at a revision that none of its others exceeds.
pub proof fn newest_is_newest(list: Seq<ReleaseView>, i: int)
    requires
        0 <= i < list.len(),
    ensures
        newest(list).dom().contains(key_of(list[i])),
        newest(list)[key_of(list[i])].revision >= list[i].revision,
        key_of(newest(list)[key_of(list[i])]) == key_of(list[i]),
        list.contains(newest(list)[key_of(list[i])]),
    decreases list.len(),
{
    let front = list.drop_last();
    let key = key_of(list[i]);
    if i < front.len() {
        assert(front[i] == list[i]);
        newest_is_newest(front, i);
        let w = choose|w: int| 0 <= w < front.len() && front[w] == newest(front)[key];
        assert(list[w] == front[w]);
        assert(list[list.len() - 1] == list.last());
    } else {
        assert(list[i] == list.last());
        if newest(front).dom().contains(key) {
            newest_keys(front, key);
            let w = choose|w: int| 0 <= w < front.len() && key_of(#[trigger] front[w]) == key;
            newest_is_newest(front, w);
            let v = choose|v: int| 0 <= v < front.len() && front[v] == newest(front)[key];
            assert(list[v] == front[v]);
        }
    }
}

/// Every key of the newest releases is that of one in the list.
proof fn newest_keys(list: Seq<ReleaseView>, key: (Seq<char>, Seq<char>))
    requires
        newest(list).dom().contains(key),
    ensures
        exists|w: int| 0 <= w < list.len() && key_of(#[trigger] list[w]) == key,
    decreases list.len(),
{
    if list.len() > 0 {
        let front = list.drop_last();
        if key_of(list.last()) == key {
            assert(key_of(list[list.len() - 1]) == key);
        } else {
            newest_keys(front, key);
            let w = choose|w: int| 0 <= w < front.len() && key_of(#[trigger] front[w]) == key;
            assert(key_of(list[w]) == key);
        }
    }
}

/// What the newest releases hold under a key has that key.
proof fn newest_keyed(list: Seq<ReleaseView>, key: (Seq<char>, Seq<char>))
    requires
        newest(list).dom().contains(key),
    ensures
        key_of(newest(list)[key]) == key,
    decreases list.len(),
{
    if list.len() > 0 {
        let front = list.drop_last();
        if newest(front).dom().contains(key) {
            newest_keyed(front, key);
        }
    }
}

pub open spec fn release_map(map: Map<(Seq<char>, Seq<char>), Release>) -> Map<
    (Seq<char>, Seq<char>),
    ReleaseView,
> {
    map.map_values(|r: Release| r@)
}

/// Keeps the newest revision of each release, by namespace and name.
pub fn latest(releases: &Vec<Release>) -> (out: Vec<Release>)
    ensures
        lists_by_name(release_views(out@), newest(release_views(releases@))),
{
    let ghost all = release_views(releases@);
    let mut found: Dict<ReleaseKey, Release> = Dict::new();
    let mut i: usize = 0;
    assert(all.take(0) =~= Seq::empty());
    assert(release_map(found@) =~= Map::empty());
    while i < releases.len()
        invariant
            i <= releases.len(),
            all == release_views(releases@),
            release_map(found@) == newest(all.take(i as int)),
        decreases releases.len() - i,
    {
        let release = &releases[i];
        assert(all.take(i + 1).drop_last() =~= all.take(i as int));
        assert(all.take(i + 1).last() == release@);
        let key = ReleaseKey { namespace: release.namespace.clone(), name: release.name.clone() };
        let keep = match found.get(&key) {
            Some(existing) => existing.revision >= release.revision,
            None => false,
        };
        if !keep {
            let ghost before = found@;
            let copy = release.copy();
            assert(release_map(before.insert(key@, copy)) =~= release_map(before).insert(
                key@,
                copy@,
            ));
            found.insert(key, copy);
        }
        i += 1;
    }
    assert(all.take(i as int) =~= all);
    let n: usize = found.len();
    let ghost list = found.entries();
    let mut out: Vec<Release> = Vec::new();
    let mut k: usize = 0;
    while k < n
        invariant
            k <= n,
            n == list.len(),
            list == found.entries(),
            out@.len() == k,
            forall|m: int| 0 <= m < k ==> (#[trigger] out@[m])@ == list[m].1@,
        decreases n - k,
    {
        out.push(found.value(k).copy());
        k += 1;
    }
    proof {
        let map = newest(all);
        let views = release_views(out@);
        assert forall|m: int| 0 <= m < views.len() implies key_of(#[trigger] views[m])
            == list[m].0@ && map.dom().contains(key_of(views[m])) && map[key_of(views[m])]
            == views[m] by {
            map_of_value(list, m);
            assert(out@[m]@ == list[m].1@);
            assert(release_map(found@).dom().contains(list[m].0@));
            newest_keyed(all, list[m].0@);
        }
        assert forall|key: (Seq<char>, Seq<char>)| #[trigger]
            map.dom().contains(key) implies exists|m: int|
            0 <= m < views.len() && key_of(#[trigger] views[m]) == key by {
            map_of_keys(list, key);
            let m = choose|m: int| 0 <= m < list.len() && (#[trigger] list[m]).0@ == key;
            assert(key_of(views[m]) == key);
        }
        assert forall|a: int, b: int| 0 <= a < b < views.len() implies row_below(
            ReleaseKey::row(key_of(#[trigger] views[a])),
            ReleaseKey::row(key_of(#[trigger] views[b])),
        ) by {
            assert(key_of(views[a]) == list[a].0@ && key_of(views[b]) == list[b].0@);
        }
    }
    out
}

/// There is one way to list releases by namespace and name.
pub proof fn a_listing_is_determined(
    one: Seq<ReleaseView>,
    other: Seq<ReleaseView>,
    map: Map<(Seq<char>, Seq<char>), ReleaseView>,
)
    requires
        lists_by_name(one, map),
        lists_by_name(other, map),
    ensures
        one == other,
{
    let before = |a: ReleaseView, b: ReleaseView|
        row_below(ReleaseKey::row(key_of(a)), ReleaseKey::row(key_of(b)));
    assert forall|a: ReleaseView, b: ReleaseView| #[trigger] before(a, b) implies !before(b, a) by {
        row_below_total(ReleaseKey::row(key_of(a)), ReleaseKey::row(key_of(b)));
    }
    assert forall|r: ReleaseView| #[trigger] one.contains(r) <==> other.contains(r) by {
        if one.contains(r) {
            let i = choose|i: int| 0 <= i < one.len() && one[i] == r;
            assert(map.dom().contains(key_of(one[i])));
            let m = choose|m: int| 0 <= m < other.len() && key_of(#[trigger] other[m]) == key_of(r);
            assert(other[m] == r);
        }
        if other.contains(r) {
            let i = choose|i: int| 0 <= i < other.len() && other[i] == r;
            assert(map.dom().contains(key_of(other[i])));
            let m = choose|m: int| 0 <= m < one.len() && key_of(#[trigger] one[m]) == key_of(r);
            assert(one[m] == r);
        }
    }
    ordered_lists_agree(one, other, before);
}

/// What selects the Secrets of releases.
pub fn selector() -> (r: String)
    ensures
        r@ == "type="@ + RELEASE_TYPE@,
{
    two("type=", RELEASE_TYPE)
}

pub open spec fn secret_reader() -> spec_fn(ObjectView) -> Option<ReleaseView> {
    |secret: ObjectView| secret_release(secret)
}

/// What a list of Secrets stands for.
pub open spec fn secret_views(secrets: Seq<DynamicObject>) -> Seq<ObjectView> {
    secrets.map_values(|s: DynamicObject| s@)
}

/// The releases that Secrets hold, by namespace and name, each at its newest
/// revision. A Secret that holds none is skipped.
pub fn releases(secrets: &Vec<DynamicObject>) -> (out: Vec<Release>)
    ensures
        lists_by_name(
            release_views(out@),
            newest(kept(secret_views(secrets@), secret_reader())),
        ),
{
    let ghost all = secret_views(secrets@);
    let mut found: Vec<Release> = Vec::new();
    let mut i: usize = 0;
    proof {
        kept_bounds(all, secret_reader());
        assert(release_views(found@) =~= Seq::empty());
    }
    while i < secrets.len()
        invariant
            i <= secrets@.len(),
            all == secret_views(secrets@),
            release_views(found@) == kept(all.take(i as int), secret_reader()),
        decreases secrets@.len() - i,
    {
        proof {
            kept_next(all, i as int, secret_reader());
            assert(all[i as int] == secrets@[i as int]@);
        }
        if let Some(release) = read(&secrets[i]) {
            let ghost before = found@;
            let ghost added = release@;
            found.push(release);
            assert(release_views(found@) =~= release_views(before).push(added));
        }
        i += 1;
    }
    proof {
        kept_bounds(all, secret_reader());
        assert(all.take(i as int) =~= all);
    }
    latest(&found)
}

} // verus!
