//! CPU and memory, as metrics-server reports them.
//!
//! Kubernetes writes quantities as strings (`1500n`, `128974848`, `123Mi`,
//! `129e6`), and getting the suffixes wrong is the difference between a core and
//! a nanocore.
use vstd::prelude::*;
use vstd::string::*;

use crate::base::decimal::{decimal, integer, natural, signed};
use crate::base::dict::Dict;
use crate::base::json::{
    field, items_of, model_of, models, part, string_at, text_of, Json, JsonView,
};
use crate::base::text::{chars, lent, same, spelled, three, trim, trimmed, two};
use crate::k8s::resources::{resource_of, ApiResource, GroupVersionKind, GvkView};

verus! {

/// What one container, pod or node is using.
#[derive(Debug, Clone, Copy, PartialEq, Eq, Structural)]
pub struct Usage {
    /// Thousandths of a core, the unit Kubernetes itself asks for.
    pub cpu_millis: i64,
    pub memory_bytes: i64,
}

impl Default for Usage {
    fn default() -> (r: Usage)
        ensures
            r.cpu_millis == 0,
            r.memory_bytes == 0,
    {
        Usage { cpu_millis: 0, memory_bytes: 0 }
    }
}

/// A quotient to the nearest whole number, the even one of two that are equally
/// near.
pub open spec fn nearest_even(n: nat, d: nat) -> nat
    recommends
        d > 0,
{
    let q = n / d;
    let rest = n % d;
    if 2 * rest < d || (2 * rest == d && q % 2 == 0) {
        q
    } else {
        q + 1
    }
}

/// A quotient to the nearest whole number, the greater one of two that are
/// equally near.
pub open spec fn nearest_up(n: nat, d: nat) -> nat
    recommends
        d > 0,
{
    (2 * n + d) / (2 * d)
}

/// The step between neighbouring double-precision numbers at `n`: they have 53
/// significant bits.
pub open spec fn precision(n: nat) -> nat
    decreases n,
{
    if n < 0x20_0000_0000_0000 {
        1
    } else {
        2 * precision(n / 2)
    }
}

/// The double-precision number nearest to a whole number.
pub open spec fn as_double(n: nat) -> nat {
    let step = precision(n);
    nearest_even(n, step) * step
}

/// A count of units of `size` bytes: to a tenth below a hundred units, to a
/// whole unit from there on.
pub open spec fn in_units(bytes: nat, size: nat, unit: Seq<char>) -> Seq<char> {
    if bytes >= 100 * size {
        decimal(nearest_up(bytes, size)) + unit
    } else {
        let tenths = nearest_even(10 * bytes, size);
        decimal(tenths / 10) + "."@ + decimal(tenths % 10) + unit
    }
}

/// An amount of memory, rounded the way a person reads it rather than exactly.
pub open spec fn memory_text(bytes: int) -> Seq<char> {
    if bytes <= 0 {
        "0"@
    } else {
        let bytes = as_double(bytes as nat);
        if bytes >= 0x4000_0000 {
            in_units(bytes, 0x4000_0000, "Gi"@)
        } else if bytes >= 0x10_0000 {
            in_units(bytes, 0x10_0000, "Mi"@)
        } else if bytes >= 0x400 {
            in_units(bytes, 0x400, "Ki"@)
        } else {
            decimal(bytes)
        }
    }
}

fn round_even(n: u128, d: u128) -> (r: u128)
    requires
        0 < d <= 0x1_0000_0000_0000_0000,
        n <= 0x1_0000_0000_0000_0000_0000,
    ensures
        r == nearest_even(n as nat, d as nat),
        r <= n / d + 1,
{
    let q: u128 = n / d;
    let rest: u128 = n % d;
    proof {
        assert(n / d <= n) by (nonlinear_arith)
            requires
                n >= 0,
                d > 0,
        ;
    }
    if 2 * rest < d || (2 * rest == d && q % 2 == 0) {
        q
    } else {
        q + 1
    }
}

/// The step between neighbouring double-precision numbers at `n`.
fn step_at(n: u64) -> (r: u128)
    ensures
        r == precision(n as nat),
        r > 0,
        r == 1 || r * 0x10_0000_0000_0000 <= n,
    decreases n,
{
    if n < 0x20_0000_0000_0000 {
        1
    } else {
        2 * step_at(n / 2)
    }
}

/// The double-precision number nearest to a whole number.
fn rounded(n: u64) -> (r: u128)
    ensures
        r == as_double(n as nat),
        r <= 0x2_0000_0000_0000_0000,
{
    let step: u128 = step_at(n);
    let count: u128 = round_even(n as u128, step);
    proof {
        let wide = n as u128;
        assert(count * step <= 0x2_0000_0000_0000_0000) by (nonlinear_arith)
            requires
                count <= wide / step + 1,
                step > 0,
                step == 1 || step * 0x10_0000_0000_0000 <= wide,
                wide <= 0xffff_ffff_ffff_ffff,
        ;
    }
    count * step
}

fn write_units(bytes: u128, size: u128, unit: &str) -> (out: String)
    requires
        0 < size <= 0x4000_0000,
        bytes <= 0x2_0000_0000_0000_0000,
    ensures
        out@ == in_units(bytes as nat, size as nat, unit@),
{
    if bytes >= 100 * size {
        let count: u128 = (2 * bytes + size) / (2 * size);
        two(natural(count).as_str(), unit)
    } else {
        let tenths: u128 = round_even(10 * bytes, size);
        let mut out = natural(tenths / 10);
        out.append(".");
        out.append(natural(tenths % 10).as_str());
        out.append(unit);
        out
    }
}

impl Usage {
    /// `250m`, the way a resource request is written.
    pub fn cpu(&self) -> (r: String)
        ensures
            r@ == signed(self.cpu_millis as int) + "m"@,
    {
        two(integer(self.cpu_millis).as_str(), "m")
    }

    /// `1.4Gi`, rounded the way a person reads it rather than exactly.
    pub fn memory(&self) -> (r: String)
        ensures
            r@ == memory_text(self.memory_bytes as int),
    {
        if self.memory_bytes <= 0 {
            return "0".to_owned();
        }
        let bytes: u128 = rounded(self.memory_bytes as u64);
        if bytes >= 0x4000_0000 {
            write_units(bytes, 0x4000_0000, "Gi")
        } else if bytes >= 0x10_0000 {
            write_units(bytes, 0x10_0000, "Mi")
        } else if bytes >= 0x400 {
            write_units(bytes, 0x400, "Ki")
        } else {
            natural(bytes)
        }
    }
}

/// Usage for everything metrics-server knows about, keyed the way a table looks
/// it up: by `namespace/name` for pods, and by bare name for nodes.
pub struct Metrics {
    usage: Dict<crate::base::dict::Text, Usage>,
}

impl View for Metrics {
    type V = Map<Seq<char>, Usage>;

    closed spec fn view(&self) -> Map<Seq<char>, Usage> {
        self.usage@
    }
}

/// What an object's usage is kept under.
pub open spec fn usage_key(namespace: Option<Seq<char>>, name: Seq<char>) -> Seq<char> {
    match namespace {
        Some(namespace) => namespace + "/"@ + name,
        None => name,
    }
}

fn key_for(namespace: Option<&str>, name: &str) -> (r: crate::base::dict::Text)
    ensures
        r@ == usage_key(lent(namespace), name@),
{
    let text = match namespace {
        Some(namespace) => three(namespace, "/", name),
        None => name.to_owned(),
    };
    crate::base::dict::Text { text }
}

impl Metrics {
    pub fn new() -> (r: Metrics)
        ensures
            r@ == Map::<Seq<char>, Usage>::empty(),
    {
        Metrics { usage: Dict::new() }
    }

    pub fn get(&self, namespace: Option<&str>, name: &str) -> (r: Option<Usage>)
        ensures
            match r {
                Some(usage) => self@.dom().contains(usage_key(lent(namespace), name@))
                    && self@[usage_key(lent(namespace), name@)] == usage,
                None => !self@.dom().contains(usage_key(lent(namespace), name@)),
            },
    {
        match self.usage.get(&key_for(namespace, name)) {
            Some(usage) => Some(*usage),
            None => None,
        }
    }

    pub fn is_empty(&self) -> (r: bool)
        ensures
            r == (self@.dom().len() == 0),
    {
        self.usage.len() == 0
    }

    pub fn len(&self) -> (r: usize)
        ensures
            r == self@.dom().len(),
    {
        self.usage.len()
    }

    /// Enters what a pod uses. One without a name is passed over; one without a
    /// namespace is kept under an empty one.
    pub fn record_pod(&mut self, namespace: Option<&str>, name: Option<&str>, usage: Usage)
        ensures
            final(self)@ == (match name {
                Some(name) => old(self)@.insert(
                    usage_key(
                        Some(
                            match namespace {
                                Some(namespace) => namespace@,
                                None => ""@,
                            },
                        ),
                        name@,
                    ),
                    usage,
                ),
                None => old(self)@,
            }),
    {
        if let Some(name) = name {
            let namespace: &str = match namespace {
                Some(namespace) => namespace,
                None => "",
            };
            self.usage.insert(key_for(Some(namespace), name), usage);
        }
    }

    /// Enters what a node uses. One without a name is passed over.
    pub fn record_node(&mut self, name: Option<&str>, usage: Usage)
        ensures
            final(self)@ == (match name {
                Some(name) => old(self)@.insert(name@, usage),
                None => old(self)@,
            }),
    {
        if let Some(name) = name {
            self.usage.insert(key_for(None, name), usage);
        }
    }
}

/// The resource of metrics of a kind.
pub fn resource(kind: &str, plural: &str) -> (r: ApiResource)
    ensures
        r@ == resource_of(
            (GvkView { group: "metrics.k8s.io"@, version: "v1beta1"@, kind: kind@ }),
            plural@,
        ),
{
    ApiResource::from_gvk_with_plural(
        &GroupVersionKind::gvk("metrics.k8s.io", "v1beta1", kind),
        plural,
    )
}

/// What a suffix multiplies by. `m` is milli and `M` is mega, which is the
/// mistake that turns 100 millicores into 100 megacores.
#[derive(Debug, Clone, Copy, PartialEq, Eq, Structural)]
pub enum Scale {
    One,
    Nano,
    Micro,
    Milli,
    Kilo,
    Mega,
    Giga,
    Tera,
    Peta,
    Exa,
    Kibi,
    Mebi,
    Gibi,
    Tebi,
    Pebi,
    Exbi,
}

/// A quantity, taken apart.
pub enum Quantity {
    /// Scientific notation: the exponent is part of the number.
    Scientific(String),
    Scaled { number: String, scale: Scale },
}

/// A quantity, as a mathematical object.
pub enum QuantityView {
    Scientific(Seq<char>),
    Scaled { number: Seq<char>, scale: Scale },
}

impl View for Quantity {
    type V = QuantityView;

    open spec fn view(&self) -> QuantityView {
        match self {
            Quantity::Scientific(text) => QuantityView::Scientific(text@),
            Quantity::Scaled { number, scale } => QuantityView::Scaled {
                number: number@,
                scale: *scale,
            },
        }
    }
}

pub open spec fn is_digit(c: char) -> bool {
    '0' <= c && c <= '9'
}

/// Whether a character can stand in a number.
pub open spec fn numeric(c: char) -> bool {
    is_digit(c) || c == '.' || c == '-' || c == '+'
}

/// How many characters from `k` on stand at the front of a number.
pub open spec fn numeric_end(s: Seq<char>, k: int) -> int
    decreases s.len() - k,
{
    if k < s.len() && numeric(s[k]) {
        numeric_end(s, k + 1)
    } else {
        k
    }
}

/// What a suffix multiplies by.
pub open spec fn scale_of(suffix: Seq<char>) -> Option<Scale> {
    if suffix == ""@ {
        Some(Scale::One)
    } else if suffix == "n"@ {
        Some(Scale::Nano)
    } else if suffix == "u"@ {
        Some(Scale::Micro)
    } else if suffix == "m"@ {
        Some(Scale::Milli)
    } else if suffix == "k"@ {
        Some(Scale::Kilo)
    } else if suffix == "M"@ {
        Some(Scale::Mega)
    } else if suffix == "G"@ {
        Some(Scale::Giga)
    } else if suffix == "T"@ {
        Some(Scale::Tera)
    } else if suffix == "P"@ {
        Some(Scale::Peta)
    } else if suffix == "E"@ {
        Some(Scale::Exa)
    } else if suffix == "Ki"@ {
        Some(Scale::Kibi)
    } else if suffix == "Mi"@ {
        Some(Scale::Mebi)
    } else if suffix == "Gi"@ {
        Some(Scale::Gibi)
    } else if suffix == "Ti"@ {
        Some(Scale::Tebi)
    } else if suffix == "Pi"@ {
        Some(Scale::Pebi)
    } else if suffix == "Ei"@ {
        Some(Scale::Exbi)
    } else {
        None
    }
}

/// Whether a suffix is an exponent: an `e` or `E` with digits behind it, with or
/// without a sign. An `E` alone is exa, and `Ei` is exbi.
pub open spec fn exponent(suffix: Seq<char>) -> bool {
    &&& suffix.len() > 1
    &&& suffix[0] == 'e' || suffix[0] == 'E'
    &&& is_digit(suffix[1]) || (suffix.len() > 2 && (suffix[1] == '+' || suffix[1] == '-')
        && is_digit(suffix[2]))
}

/// The parts of a quantity: nothing for an empty one or one with an unknown
/// suffix.
pub open spec fn quantity_of(value: Seq<char>) -> Option<QuantityView> {
    let s = trimmed(value);
    let at = numeric_end(s, 0);
    let suffix = s.skip(at);
    if s.len() == 0 {
        None
    } else if exponent(suffix) {
        Some(QuantityView::Scientific(s))
    } else {
        match scale_of(suffix) {
            Some(scale) => Some(QuantityView::Scaled { number: s.take(at), scale }),
            None => None,
        }
    }
}

fn read_scale(suffix: &str) -> (r: Option<Scale>)
    ensures
        r == scale_of(suffix@),
{
    if same(suffix, "") {
        Some(Scale::One)
    } else if same(suffix, "n") {
        Some(Scale::Nano)
    } else if same(suffix, "u") {
        Some(Scale::Micro)
    } else if same(suffix, "m") {
        Some(Scale::Milli)
    } else if same(suffix, "k") {
        Some(Scale::Kilo)
    } else if same(suffix, "M") {
        Some(Scale::Mega)
    } else if same(suffix, "G") {
        Some(Scale::Giga)
    } else if same(suffix, "T") {
        Some(Scale::Tera)
    } else if same(suffix, "P") {
        Some(Scale::Peta)
    } else if same(suffix, "E") {
        Some(Scale::Exa)
    } else if same(suffix, "Ki") {
        Some(Scale::Kibi)
    } else if same(suffix, "Mi") {
        Some(Scale::Mebi)
    } else if same(suffix, "Gi") {
        Some(Scale::Gibi)
    } else if same(suffix, "Ti") {
        Some(Scale::Tebi)
    } else if same(suffix, "Pi") {
        Some(Scale::Pebi)
    } else if same(suffix, "Ei") {
        Some(Scale::Exbi)
    } else {
        None
    }
}

fn has_exponent(suffix: &str) -> (r: bool)
    ensures
        r == exponent(suffix@),
{
    let cs = chars(suffix);
    if cs.len() < 2 || !(cs[0] == 'e' || cs[0] == 'E') {
        return false;
    }
    if '0' <= cs[1] && cs[1] <= '9' {
        return true;
    }
    cs.len() > 2 && (cs[1] == '+' || cs[1] == '-') && '0' <= cs[2] && cs[2] <= '9'
}

/// Takes a Kubernetes quantity apart: the number, and what its suffix multiplies
/// it by.
pub fn split_quantity(value: &str) -> (r: Option<Quantity>)
    ensures
        (match r {
            Some(q) => Some(q@),
            None => None,
        }) == quantity_of(value@),
{
    let text = trim(value);
    let cs = chars(text.as_str());
    if cs.len() == 0 {
        return None;
    }
    let mut at: usize = 0;
    while at < cs.len() && (('0' <= cs[at] && cs[at] <= '9') || cs[at] == '.' || cs[at] == '-'
        || cs[at] == '+')
        invariant
            at <= cs.len(),
            numeric_end(cs@, 0) == numeric_end(cs@, at as int),
        decreases cs.len() - at,
    {
        at += 1;
    }
    let number = spelled(&cs, 0, at);
    let suffix = spelled(&cs, at, cs.len());
    assert(number@ =~= cs@.take(at as int));
    assert(suffix@ =~= cs@.skip(at as int));
    if has_exponent(suffix.as_str()) {
        return Some(Quantity::Scientific(text));
    }
    match read_scale(suffix.as_str()) {
        Some(scale) => Some(Quantity::Scaled { number, scale }),
        None => None,
    }
}

/// What metrics-server says that something uses, still as it is written. What is
/// absent or cannot be read counts as nothing.
pub struct Reading {
    pub cpu: Option<Quantity>,
    pub memory: Option<Quantity>,
}

/// What something uses, as a mathematical object.
pub struct ReadingView {
    pub cpu: Option<QuantityView>,
    pub memory: Option<QuantityView>,
}

impl View for Reading {
    type V = ReadingView;

    open spec fn view(&self) -> ReadingView {
        ReadingView {
            cpu: match self.cpu {
                Some(q) => Some(q@),
                None => None,
            },
            memory: match self.memory {
                Some(q) => Some(q@),
                None => None,
            },
        }
    }
}

/// The quantity in a field.
pub open spec fn quantity_in(usage: Option<JsonView>, name: Seq<char>) -> Option<QuantityView> {
    match text_of(part(usage, name)) {
        Some(text) => quantity_of(text),
        None => None,
    }
}

/// What a `usage` field says.
pub open spec fn reading_of(usage: Option<JsonView>) -> ReadingView {
    ReadingView { cpu: quantity_in(usage, "cpu"@), memory: quantity_in(usage, "memory"@) }
}

/// What each container of a pod uses; metrics-server does not report a total.
pub open spec fn readings_of(data: JsonView) -> Seq<ReadingView> {
    items_of(data.get("containers"@)).map_values(
        |container: JsonView| reading_of(container.get("usage"@)),
    )
}

/// What a list of readings stands for.
pub open spec fn reading_views(list: Seq<Reading>) -> Seq<ReadingView> {
    list.map_values(|r: Reading| r@)
}

fn read_quantity(usage: Option<&Json>, name: &str) -> (r: Option<Quantity>)
    ensures
        (match r {
            Some(q) => Some(q@),
            None => None,
        }) == quantity_in(model_of(usage), name@),
{
    match string_at(field(usage, name)) {
        Some(text) => split_quantity(text),
        None => None,
    }
}

/// Reads a `usage` field.
pub fn read_usage(usage: Option<&Json>) -> (r: Reading)
    ensures
        r@ == reading_of(model_of(usage)),
{
    Reading { cpu: read_quantity(usage, "cpu"), memory: read_quantity(usage, "memory") }
}

/// Reads what each container of a pod uses.
pub fn container_usage(data: &Json) -> (out: Vec<Reading>)
    ensures
        reading_views(out@) == readings_of(data@),
{
    let mut out: Vec<Reading> = Vec::new();
    let ghost all = items_of(data@.get("containers"@));
    if let Some(containers) = data.get("containers") {
        if let Some(items) = containers.as_array() {
            let mut i: usize = 0;
            while i < items.len()
                invariant
                    i <= items.len(),
                    out@.len() == i,
                    all == models(items@),
                    forall|k: int|
                        0 <= k < i ==> (#[trigger] out@[k])@ == reading_of(all[k].get("usage"@)),
                decreases items.len() - i,
            {
                assert(all[i as int] == items@[i as int]@);
                out.push(read_usage(items[i].get("usage")));
                i += 1;
            }
        }
    }
    assert(reading_views(out@) =~= readings_of(data@));
    out
}

} // verus!
