//! The object store and the deltas that feed it.
//!
//! One store holds the objects of a single watch: one kind, one namespace
//! scope, one selector. A watcher owns the authoritative copy; every subscriber
//! builds its own from the same delta stream.
use std::sync::Arc;

use vstd::prelude::*;

use crate::base::dict::{
    in_order, map_of, map_of_keys, map_of_len, map_of_value, option_below_strict, option_less,
    option_same, row_below, Dict, Key, Row,
};
use crate::base::list::{kept, kept_bounds, kept_next};
use crate::base::meta::{pairs, MetaView};
use crate::base::text::{borrowed, held, lent, less, precedes_irreflexive, same, three};
use crate::k8s::resources::{DynamicObject, ObjectView};

verus! {

/// Identifies one object within a single resource kind.
///
/// Namespace and name, not UID. A pod deleted and recreated under the same name
/// is the same row to the person reading the table.
#[derive(Debug, PartialEq, Eq, PartialOrd, Ord, Hash)]
pub struct ObjectRef {
    /// `None` for cluster-scoped objects.
    pub namespace: Option<String>,
    pub name: String,
}

/// Identifies one object, as a mathematical object.
pub struct RefView {
    pub namespace: Option<Seq<char>>,
    pub name: Seq<char>,
}

impl View for ObjectRef {
    type V = RefView;

    open spec fn view(&self) -> RefView {
        RefView { namespace: held(self.namespace), name: self.name@ }
    }
}

/// The reference to an object. The API server never returns a nameless object;
/// an empty-named row is a visible symptom of one that is malformed, rather
/// than a silent drop.
pub open spec fn ref_of(object: ObjectView) -> RefView {
    RefView {
        namespace: object.metadata.namespace,
        name: match object.metadata.name {
            Some(name) => name,
            None => Seq::empty(),
        },
    }
}

/// `namespace/name`, or the name of what is in no namespace.
pub open spec fn ref_text(r: RefView) -> Seq<char> {
    match r.namespace {
        Some(namespace) => namespace + "/"@ + r.name,
        None => r.name,
    }
}

impl ObjectRef {
    pub fn new(namespace: Option<String>, name: &str) -> (r: ObjectRef)
        ensures
            r@ == (RefView { namespace: held(namespace), name: name@ }),
    {
        ObjectRef { namespace, name: name.to_owned() }
    }

    /// The reference to an object as the API server returned it.
    pub fn of(object: &DynamicObject) -> (r: ObjectRef)
        ensures
            r@ == ref_of(object@),
    {
        ObjectRef {
            namespace: object.metadata.namespace.clone(),
            name: match &object.metadata.name {
                Some(name) => name.clone(),
                None => String::new(),
            },
        }
    }

    /// `namespace/name`, or the name of what is in no namespace.
    pub fn to_text(&self) -> (r: String)
        ensures
            r@ == ref_text(self@),
    {
        match &self.namespace {
            Some(namespace) => three(namespace.as_str(), "/", self.name.as_str()),
            None => self.name.clone(),
        }
    }

    /// Whether two identify the same object.
    pub fn same(&self, other: &ObjectRef) -> (r: bool)
        ensures
            r == (self@ == other@),
    {
        option_same(borrowed(&self.namespace), borrowed(&other.namespace)) && same(
            self.name.as_str(),
            other.name.as_str(),
        )
    }

    /// A copy.
    pub fn copy(&self) -> (r: ObjectRef)
        ensures
            r@ == self@,
    {
        ObjectRef { namespace: self.namespace.clone(), name: self.name.clone() }
    }
}

/// By namespace, what is in none first, then by name.
impl Key for ObjectRef {
    open spec fn row(v: RefView) -> Row {
        seq![v.namespace, Some(v.name)]
    }

    proof fn row_injective(a: RefView, b: RefView) {
        assert(Self::row(a)[0] == Self::row(b)[0]);
        assert(Self::row(a)[1] == Self::row(b)[1]);
    }

    fn less(&self, other: &Self) -> (r: bool) {
        proof {
            reveal_with_fuel(row_below, 3);
            option_below_strict(self@.namespace, other@.namespace);
            precedes_irreflexive(self@.name);
            assert(Self::row(self@).drop_first() =~= seq![Some(self@.name)]);
            assert(Self::row(other@).drop_first() =~= seq![Some(other@.name)]);
        }
        if option_same(borrowed(&self.namespace), borrowed(&other.namespace)) {
            less(self.name.as_str(), other.name.as_str())
        } else {
            option_less(borrowed(&self.namespace), borrowed(&other.namespace))
        }
    }
}

/// One change to a store.
#[derive(Debug, PartialEq, Eq)]
pub enum Delta {
    /// Replace everything. Sent for the initial list, after a watch desync, and
    /// to a subscriber that joins an already-running watch.
    Reset(Vec<Arc<DynamicObject>>),
    Upsert(Arc<DynamicObject>),
    Remove(ObjectRef),
}

/// What crosses from a watch to a view: deltas coalesced over one frame, never
/// a single one, which would put a render between each pair of them.
pub type DeltaBatch = Vec<Delta>;

/// One change to a store, as a mathematical object.
pub enum DeltaView {
    Reset(Seq<ObjectView>),
    Upsert(ObjectView),
    Remove(RefView),
}

/// What a list of shared objects stands for.
pub open spec fn object_views(list: Seq<Arc<DynamicObject>>) -> Seq<ObjectView> {
    list.map_values(|o: Arc<DynamicObject>| o@)
}

impl View for Delta {
    type V = DeltaView;

    open spec fn view(&self) -> DeltaView {
        match self {
            Delta::Reset(objects) => DeltaView::Reset(object_views(objects@)),
            Delta::Upsert(object) => DeltaView::Upsert(object@),
            Delta::Remove(key) => DeltaView::Remove(key@),
        }
    }
}

/// What a batch of changes stands for.
pub open spec fn delta_views(batch: Seq<Delta>) -> Seq<DeltaView> {
    batch.map_values(|d: Delta| d@)
}

/// A store, as a mathematical object.
pub struct StoreView {
    pub objects: Map<RefView, ObjectView>,
    pub revision: nat,
}

/// The objects of a list by their references; of two with the same one the
/// later stays.
pub open spec fn indexed(list: Seq<ObjectView>) -> Map<RefView, ObjectView>
    decreases list.len(),
{
    if list.len() == 0 {
        Map::empty()
    } else {
        indexed(list.drop_last()).insert(ref_of(list.last()), list.last())
    }
}

/// Whether two objects are known to be of the same version. Without a version
/// there is nothing to compare.
pub open spec fn version_same(a: ObjectView, b: ObjectView) -> bool {
    a.metadata.resource_version is Some && a.metadata.resource_version
        == b.metadata.resource_version
}

/// Whether a change changes anything. An unchanged object still arrives on
/// every relist.
pub open spec fn effective(objects: Map<RefView, ObjectView>, delta: DeltaView) -> bool {
    match delta {
        DeltaView::Reset(_) => true,
        DeltaView::Upsert(object) => !(objects.dom().contains(ref_of(object)) && version_same(
            objects[ref_of(object)],
            object,
        )),
        DeltaView::Remove(key) => objects.dom().contains(key),
    }
}

/// The objects after a change.
pub open spec fn changed_objects(
    objects: Map<RefView, ObjectView>,
    delta: DeltaView,
) -> Map<RefView, ObjectView> {
    if !effective(objects, delta) {
        objects
    } else {
        match delta {
            DeltaView::Reset(list) => indexed(list),
            DeltaView::Upsert(object) => objects.insert(ref_of(object), object),
            DeltaView::Remove(key) => objects.remove(key),
        }
    }
}

/// A store after a change: the revision moves exactly when something changed.
pub open spec fn applied(store: StoreView, delta: DeltaView) -> StoreView {
    StoreView {
        objects: changed_objects(store.objects, delta),
        revision: if effective(store.objects, delta) {
            store.revision + 1
        } else {
            store.revision
        },
    }
}

/// A store after a batch of changes, one after the other.
pub open spec fn applied_all(store: StoreView, batch: Seq<DeltaView>) -> StoreView
    decreases batch.len(),
{
    if batch.len() == 0 {
        store
    } else {
        applied(applied_all(store, batch.drop_last()), batch.last())
    }
}

/// A batch moves the revision by at most its length, and moves it at all
/// exactly when one of its changes changed something.
pub proof fn batch_revision(store: StoreView, batch: Seq<DeltaView>)
    ensures
        store.revision <= applied_all(store, batch).revision <= store.revision + batch.len(),
        applied_all(store, batch).revision == store.revision ==> applied_all(store, batch) == store,
    decreases batch.len(),
{
    if batch.len() > 0 {
        batch_revision(store, batch.drop_last());
        let before = applied_all(store, batch.drop_last());
        assert(!effective(before.objects, batch.last()) ==> applied(before, batch.last())
            == before);
    }
}

/// Applying the same object again changes nothing, where it has a version.
pub proof fn reapplying_is_no_change(store: StoreView, object: ObjectView)
    requires
        object.metadata.resource_version is Some,
    ensures
        !effective(applied(store, DeltaView::Upsert(object)).objects, DeltaView::Upsert(object)),
        applied(applied(store, DeltaView::Upsert(object)), DeltaView::Upsert(object)) == applied(
            store,
            DeltaView::Upsert(object),
        ),
{
    let key = ref_of(object);
    let once = applied(store, DeltaView::Upsert(object));
    if effective(store.objects, DeltaView::Upsert(object)) {
        assert(once.objects[key] == object);
    }
    assert(applied(once, DeltaView::Upsert(object)) == once);
}

/// The revision moves by one exactly when something changed, and what does not
/// change anything leaves the objects as they are. An object that arrives is
/// found under its reference from then on, unless the very version of it was
/// there already, which changes nothing. One that is removed is gone, which is a
/// change where it was there. Neither touches any other object.
pub proof fn a_change_touches_one_object(store: StoreView, delta: DeltaView, other: RefView)
    ensures
        ({
            let before = store.objects;
            let after = applied(store, delta).objects;
            let changed = effective(before, delta);
            &&& applied(store, delta).revision == store.revision + (if changed {
                1int
            } else {
                0int
            })
            &&& !changed ==> applied(store, delta) == store
            &&& match delta {
                DeltaView::Upsert(object) => {
                    let key = ref_of(object);
                    &&& changed <==> !(before.dom().contains(key)
                        && before[key].metadata.resource_version is Some
                        && before[key].metadata.resource_version
                        == object.metadata.resource_version)
                    &&& after.dom().contains(key)
                    &&& changed ==> after[key] == object
                    &&& other != key ==> after.dom().contains(other) == before.dom().contains(other)
                    &&& other != key ==> after[other] == before[other]
                },
                DeltaView::Remove(key) => {
                    &&& changed <==> before.dom().contains(key)
                    &&& !after.dom().contains(key)
                    &&& other != key ==> after.dom().contains(other) == before.dom().contains(other)
                    &&& other != key ==> after[other] == before[other]
                },
                DeltaView::Reset(list) => changed && after == indexed(list),
            }
        }),
{
    assert(!effective(store.objects, delta) ==> applied(store, delta) == store);
}

/// What was removed is gone, and removing an object that was not there before it
/// arrived leaves the objects as they were.
pub proof fn removing_undoes_arriving(store: StoreView, object: ObjectView)
    ensures
        ({
            let key = ref_of(object);
            let after = applied(applied(store, DeltaView::Upsert(object)), DeltaView::Remove(key));
            &&& after.objects == store.objects.remove(key)
            &&& !after.objects.dom().contains(key)
            &&& !store.objects.dom().contains(key) ==> after.objects == store.objects
        }),
{
    let key = ref_of(object);
    let after = applied(applied(store, DeltaView::Upsert(object)), DeltaView::Remove(key));
    assert(after.objects =~= store.objects.remove(key));
    if !store.objects.dom().contains(key) {
        assert(store.objects.remove(key) =~= store.objects);
    }
}

/// A reset replaces everything: what was there before has no say.
pub proof fn reset_forgets(one: StoreView, other: StoreView, list: Seq<ObjectView>)
    ensures
        applied(one, DeltaView::Reset(list)).objects == applied(
            other,
            DeltaView::Reset(list),
        ).objects,
        applied(one, DeltaView::Reset(list)).objects == indexed(list),
{
}

/// Two stores that hold the same objects still do after the same changes: a view
/// that builds its own copy from the stream of changes holds what the watch
/// holds.
pub proof fn copies_stay_alike(one: StoreView, other: StoreView, batch: Seq<DeltaView>)
    requires
        one.objects == other.objects,
    ensures
        applied_all(one, batch).objects == applied_all(other, batch).objects,
    decreases batch.len(),
{
    if batch.len() > 0 {
        copies_stay_alike(one, other, batch.drop_last());
    }
}

/// A batch with a reset in it is everything: what a store held before makes no
/// difference.
pub proof fn a_list_is_everything(
    one: StoreView,
    other: StoreView,
    batch: Seq<DeltaView>,
    at: int,
)
    requires
        0 <= at < batch.len(),
        batch[at] is Reset,
    ensures
        applied_all(one, batch).objects == applied_all(other, batch).objects,
    decreases batch.len(),
{
    if at < batch.len() - 1 {
        a_list_is_everything(one, other, batch.drop_last(), at);
    }
}

/// What is indexed under a reference is an object with that reference.
pub proof fn indexed_keyed(list: Seq<ObjectView>)
    ensures
        keyed(indexed(list)),
        indexed(list).dom().finite(),
    decreases list.len(),
{
    if list.len() > 0 {
        indexed_keyed(list.drop_last());
    }
}

/// Whether every object stands under its own reference.
pub open spec fn keyed(objects: Map<RefView, ObjectView>) -> bool {
    forall|k: RefView| #[trigger] objects.dom().contains(k) ==> ref_of(objects[k]) == k
}

/// Every change keeps each object under its own reference.
pub proof fn changes_keep_keys(objects: Map<RefView, ObjectView>, delta: DeltaView)
    requires
        keyed(objects),
    ensures
        keyed(changed_objects(objects, delta)),
{
    if let DeltaView::Reset(list) = delta {
        indexed_keyed(list);
    }
}

/// The objects that are not in a namespace.
pub open spec fn elsewhere(objects: Map<RefView, ObjectView>, namespace: Seq<char>) -> Map<
    RefView,
    ObjectView,
> {
    objects.restrict(Set::new(|k: RefView| k.namespace != Some(namespace)))
}

/// A store after a change that the watch of one namespace reports, or of all of
/// them. What such a watch lists is everything in its namespace, and says
/// nothing of the others.
pub open spec fn applied_in(
    store: StoreView,
    namespace: Option<Seq<char>>,
    delta: DeltaView,
) -> StoreView {
    match (namespace, delta) {
        (Some(namespace), DeltaView::Reset(list)) => StoreView {
            objects: elsewhere(store.objects, namespace).union_prefer_right(indexed(list)),
            revision: store.revision + 1,
        },
        _ => applied(store, delta),
    }
}

/// A store after a batch of such changes, one after the other.
pub open spec fn applied_all_in(
    store: StoreView,
    namespace: Option<Seq<char>>,
    batch: Seq<DeltaView>,
) -> StoreView
    decreases batch.len(),
{
    if batch.len() == 0 {
        store
    } else {
        applied_in(applied_all_in(store, namespace, batch.drop_last()), namespace, batch.last())
    }
}

/// What a batch of one namespace does to the revision.
proof fn batch_revision_in(store: StoreView, namespace: Option<Seq<char>>, batch: Seq<DeltaView>)
    ensures
        store.revision <= applied_all_in(store, namespace, batch).revision <= store.revision
            + batch.len(),
        applied_all_in(store, namespace, batch).revision == store.revision ==> applied_all_in(
            store,
            namespace,
            batch,
        ) == store,
    decreases batch.len(),
{
    if batch.len() > 0 {
        batch_revision_in(store, namespace, batch.drop_last());
        let before = applied_all_in(store, namespace, batch.drop_last());
        assert(!effective(before.objects, batch.last()) ==> applied(before, batch.last())
            == before);
    }
}

/// What the watch of one namespace reports of its own objects leaves those of
/// the others as they are.
pub proof fn other_namespaces_are_left_alone(
    store: StoreView,
    namespace: Seq<char>,
    delta: DeltaView,
    key: RefView,
)
    requires
        key.namespace != Some(namespace),
        match delta {
            DeltaView::Reset(list) => forall|i: int|
                0 <= i < list.len() ==> ref_of(#[trigger] list[i]).namespace == Some(namespace),
            DeltaView::Upsert(object) => ref_of(object).namespace == Some(namespace),
            DeltaView::Remove(gone) => gone.namespace == Some(namespace),
        },
    ensures
        ({
            let after = applied_in(store, Some(namespace), delta);
            &&& after.objects.dom().contains(key) <==> store.objects.dom().contains(key)
            &&& store.objects.dom().contains(key) ==> after.objects[key] == store.objects[key]
        }),
{
    if let DeltaView::Reset(list) = delta {
        if indexed(list).dom().contains(key) {
            indexed_from(list, key);
        }
    }
}

/// What a list is indexed by comes from it.
proof fn indexed_from(list: Seq<ObjectView>, key: RefView)
    requires
        indexed(list).dom().contains(key),
    ensures
        exists|i: int| 0 <= i < list.len() && ref_of(#[trigger] list[i]) == key,
    decreases list.len(),
{
    if list.len() > 0 {
        if ref_of(list.last()) == key {
            assert(ref_of(list[list.len() - 1]) == key);
        } else {
            indexed_from(list.drop_last(), key);
            let i = choose|i: int|
                0 <= i < list.drop_last().len() && ref_of(#[trigger] list.drop_last()[i]) == key;
            assert(ref_of(list[i]) == key);
        }
    }
}

/// Of two lists, one after the other, the second decides.
proof fn indexed_both(first: Seq<ObjectView>, second: Seq<ObjectView>)
    ensures
        indexed(first + second) == indexed(first).union_prefer_right(indexed(second)),
    decreases second.len(),
{
    if second.len() == 0 {
        assert(first + second =~= first);
        assert(indexed(first).union_prefer_right(indexed(second)) =~= indexed(first));
    } else {
        indexed_both(first, second.drop_last());
        assert((first + second).drop_last() =~= first + second.drop_last());
        assert(indexed(first + second) =~= indexed(first).union_prefer_right(indexed(second)));
    }
}

/// Another pointer to the same value.
pub(crate) fn share<T>(value: &Arc<T>) -> (r: Arc<T>)
    ensures
        r == *value,
{
    value.clone()
}

/// Everything currently known about one watched kind.
pub struct ResourceStore {
    objects: Dict<ObjectRef, Arc<DynamicObject>>,
    revision: u64,
}

/// What shared objects stand for, by reference.
pub open spec fn map_views(map: Map<RefView, Arc<DynamicObject>>) -> Map<RefView, ObjectView> {
    map.map_values(|o: Arc<DynamicObject>| o@)
}

impl View for ResourceStore {
    type V = StoreView;

    closed spec fn view(&self) -> StoreView {
        StoreView { objects: map_views(self.objects@), revision: self.revision as nat }
    }
}

/// The list of a map's objects in the order of their references indexes to the
/// map itself.
proof fn entries_indexed(list: Seq<(ObjectRef, Arc<DynamicObject>)>)
    requires
        in_order(list),
        keyed(map_views(map_of(list))),
    ensures
        indexed(list.map_values(|e: (ObjectRef, Arc<DynamicObject>)| e.1@)) == map_views(
            map_of(list),
        ),
    decreases list.len(),
{
    let views = list.map_values(|e: (ObjectRef, Arc<DynamicObject>)| e.1@);
    if list.len() == 0 {
        assert(map_views(map_of(list)) =~= Map::empty());
    } else {
        let front = list.drop_last();
        assert(in_order(front)) by {
            assert forall|a: int, b: int| 0 <= a < b < front.len() implies row_below(
                ObjectRef::row((#[trigger] front[a]).0@),
                ObjectRef::row((#[trigger] front[b]).0@),
            ) by {
                assert(front[a] == list[a] && front[b] == list[b]);
            }
        }
        map_of_value(list, list.len() - 1);
        assert(map_views(map_of(list)).dom().contains(list.last().0@));
        assert(ref_of(list.last().1@) == list.last().0@);
        assert(keyed(map_views(map_of(front)))) by {
            assert forall|k: RefView| #[trigger]
                map_views(map_of(front)).dom().contains(k) implies ref_of(
                map_views(map_of(front))[k],
            ) == k by {
                map_of_keys(front, k);
                let i = choose|i: int| 0 <= i < front.len() && (#[trigger] front[i]).0@ == k;
                map_of_value(front, i);
                map_of_value(list, i);
                assert(list[i] == front[i]);
                assert(map_views(map_of(list)).dom().contains(k));
            }
        }
        entries_indexed(front);
        assert(views.drop_last() =~= front.map_values(
            |e: (ObjectRef, Arc<DynamicObject>)| e.1@,
        ));
        assert(map_views(map_of(list)) =~= map_views(map_of(front)).insert(
            list.last().0@,
            list.last().1@,
        ));
    }
}

impl ResourceStore {
    /// Every object stands under its own reference.
    #[verifier::type_invariant]
    closed spec fn consistent(self) -> bool {
        keyed(map_views(self.objects@))
    }

    pub fn new() -> (r: ResourceStore)
        ensures
            r@.objects == Map::<RefView, ObjectView>::empty(),
            r@.revision == 0,
    {
        let objects: Dict<ObjectRef, Arc<DynamicObject>> = Dict::new();
        assert(map_views(objects@) =~= Map::<RefView, ObjectView>::empty());
        ResourceStore { objects, revision: 0 }
    }

    /// Applies one delta. Returns whether anything actually changed.
    pub fn apply(&mut self, delta: Delta) -> (changed: bool)
        requires
            old(self)@.revision < u64::MAX,
        ensures
            final(self)@ == applied(old(self)@, delta@),
            changed == effective(old(self)@.objects, delta@),
    {
        proof {
            use_type_invariant(&*self);
            changes_keep_keys(self@.objects, delta@);
        }
        let ghost before = self@;
        match delta {
            Delta::Reset(list) => {
                let mut objects: Dict<ObjectRef, Arc<DynamicObject>> = Dict::new();
                let ghost all = object_views(list@);
                let mut i: usize = 0;
                assert(map_views(objects@) =~= indexed(all.take(0)));
                while i < list.len()
                    invariant
                        i <= list.len(),
                        all == object_views(list@),
                        map_views(objects@) == indexed(all.take(i as int)),
                    decreases list.len() - i,
                {
                    assert(all.take(i + 1).drop_last() =~= all.take(i as int));
                    assert(all.take(i + 1).last() == list@[i as int]@);
                    let ghost known = objects@;
                    objects.insert(ObjectRef::of(&list[i]), share(&list[i]));
                    assert(map_views(objects@) =~= map_views(known).insert(
                        ref_of(list@[i as int]@),
                        list@[i as int]@,
                    ));
                    i += 1;
                }
                assert(all.take(i as int) =~= all);
                proof {
                    indexed_keyed(all);
                }
                self.objects = objects;
                self.revision = self.revision + 1;
                true
            },
            Delta::Upsert(object) => {
                let key = ObjectRef::of(&object);
                // Comparing versions is cheaper than the re-sort and re-render
                // that a spurious change would trigger.
                let unchanged = match self.objects.get(&key) {
                    Some(existing) => same_version(existing, &object),
                    None => false,
                };
                if unchanged {
                    return false;
                }
                let ghost known = self.objects@;
                let ghost added = object@;
                proof {
                    assert(map_views(known.insert(key@, object)) =~= map_views(known).insert(
                        key@,
                        added,
                    ));
                }
                let mut objects: Dict<ObjectRef, Arc<DynamicObject>> = Dict::new();
                assert(map_views(objects@) =~= Map::<RefView, ObjectView>::empty());
                core::mem::swap(&mut objects, &mut self.objects);
                objects.insert(key, object);
                self.objects = objects;
                self.revision = self.revision + 1;
                true
            },
            Delta::Remove(key) => {
                let ghost known = self.objects@;
                proof {
                    assert(map_views(known.remove(key@)) =~= map_views(known).remove(key@));
                    assert(keyed(map_views(known).remove(key@)));
                }
                let mut objects: Dict<ObjectRef, Arc<DynamicObject>> = Dict::new();
                assert(map_views(objects@) =~= Map::<RefView, ObjectView>::empty());
                core::mem::swap(&mut objects, &mut self.objects);
                let removed = objects.remove(&key).is_some();
                self.objects = objects;
                if removed {
                    self.revision = self.revision + 1;
                    true
                } else {
                    assert(known.remove(key@) =~= known);
                    false
                }
            },
        }
    }

    /// Applies a whole batch. Returns whether anything changed, so a caller can
    /// skip a render for a batch that turned out to be all no-ops.
    pub fn apply_batch(&mut self, batch: Vec<Delta>) -> (changed: bool)
        requires
            old(self)@.revision + batch@.len() <= u64::MAX,
        ensures
            final(self)@ == applied_all(old(self)@, delta_views(batch@)),
            changed == (final(self)@.revision > old(self)@.revision),
    {
        let ghost start = self@;
        let ghost given = batch@;
        let ghost all = delta_views(batch@);
        let mut changed = false;
        assert(all.take(0) =~= Seq::empty());
        for delta in it: batch
            invariant
                it.seq() == given,
                all == delta_views(given),
                self@ == applied_all(start, all.take(it.index() as int)),
                start.revision + given.len() <= u64::MAX,
                changed == (self@.revision > start.revision),
        {
            proof {
                let done = it.index() as int;
                batch_revision(start, all.take(done));
                assert(all.take(done + 1).drop_last() =~= all.take(done));
                assert(all.take(done + 1).last() == given[done]@);
            }
            // Every delta has to be applied, so nothing here may short-circuit.
            if self.apply(delta) {
                changed = true;
            }
        }
        assert(all.take(all.len() as int) =~= all);
        changed
    }

    /// The objects that are not in a namespace.
    fn outside(&self, namespace: &str) -> (r: Vec<Arc<DynamicObject>>)
        ensures
            indexed(object_views(r@)) == elsewhere(self@.objects, namespace@),
    {
        let entries = self.iter();
        let ghost objects = self@.objects;
        let mut out: Vec<Arc<DynamicObject>> = Vec::new();
        let mut i: usize = 0;
        while i < entries.len()
            invariant
                i <= entries@.len(),
                objects == self@.objects,
                keyed(objects),
                forall|k: int|
                    0 <= k < entries@.len() ==> objects.dom().contains((#[trigger] entries@[k]).0@)
                        && objects[entries@[k].0@] == entries@[k].1@,
                forall|key: RefView| #[trigger]
                    indexed(object_views(out@)).dom().contains(key) <==> key.namespace != Some(
                        namespace@,
                    ) && exists|k: int| 0 <= k < i && (#[trigger] entries@[k]).0@ == key,
                forall|key: RefView| #[trigger]
                    indexed(object_views(out@)).dom().contains(key) ==> indexed(
                        object_views(out@),
                    )[key] == objects[key],
            decreases entries@.len() - i,
        {
            let inside = match &entries[i].0.namespace {
                Some(own) => same(own.as_str(), namespace),
                None => false,
            };
            let ghost before = object_views(out@);
            assert(objects.dom().contains(entries@[i as int].0@));
            assert(ref_of(entries@[i as int].1@) == entries@[i as int].0@);
            if !inside {
                out.push(share(entries[i].1));
                assert(object_views(out@) =~= before.push(entries@[i as int].1@));
                assert(object_views(out@).drop_last() =~= before);
            }
            assert forall|key: RefView| #[trigger]
                indexed(object_views(out@)).dom().contains(key) <==> key.namespace != Some(
                    namespace@,
                ) && exists|k: int| 0 <= k < i + 1 && (#[trigger] entries@[k]).0@ == key by {
                let now = key.namespace != Some(namespace@) && exists|k: int|
                    0 <= k < i + 1 && (#[trigger] entries@[k]).0@ == key;
                if indexed(object_views(out@)).dom().contains(key) && key != entries@[i as int].0@ {
                    assert(indexed(before).dom().contains(key));
                }
                if now && key != entries@[i as int].0@ {
                    let k = choose|k: int| 0 <= k < i + 1 && (#[trigger] entries@[k]).0@ == key;
                    assert(k < i);
                    assert(indexed(before).dom().contains(key));
                }
            }
            assert forall|key: RefView| #[trigger]
                indexed(object_views(out@)).dom().contains(key) implies indexed(
                object_views(out@),
            )[key] == objects[key] by {
                if key != entries@[i as int].0@ {
                    assert(indexed(before).dom().contains(key));
                }
            }
            i += 1;
        }
        assert(indexed(object_views(out@)) =~= elsewhere(objects, namespace@));
        out
    }

    /// Applies one delta of a watch of one namespace, or of all of them.
    fn apply_in(&mut self, namespace: Option<&str>, delta: Delta)
        requires
            old(self)@.revision < u64::MAX,
        ensures
            final(self)@ == applied_in(old(self)@, lent(namespace), delta@),
    {
        match (namespace, delta) {
            (Some(namespace), Delta::Reset(objects)) => {
                let mut all = self.outside(namespace);
                let ghost others = object_views(all@);
                let ghost listed = object_views(objects@);
                let mut objects = objects;
                all.append(&mut objects);
                proof {
                    assert(object_views(all@) =~= others + listed);
                    indexed_both(others, listed);
                }
                let _ = self.apply(Delta::Reset(all));
            },
            (_, delta) => {
                let _ = self.apply(delta);
            },
        }
    }

    /// Applies a batch of a watch of one namespace, or of all of them. A list of
    /// one namespace replaces the objects of that namespace and no others, so
    /// that several such watches can feed one store. Returns whether anything
    /// changed.
    pub fn apply_from(&mut self, namespace: Option<&str>, batch: Vec<Delta>) -> (changed: bool)
        requires
            old(self)@.revision + batch@.len() <= u64::MAX,
        ensures
            final(self)@ == applied_all_in(old(self)@, lent(namespace), delta_views(batch@)),
            changed == (final(self)@.revision > old(self)@.revision),
            !changed ==> final(self)@ == old(self)@,
    {
        let ghost start = self@;
        let ghost given = batch@;
        let ghost all = delta_views(batch@);
        let before: u64 = self.revision;
        assert(all.take(0) =~= Seq::empty());
        for delta in it: batch
            invariant
                it.seq() == given,
                all == delta_views(given),
                self@ == applied_all_in(start, lent(namespace), all.take(it.index() as int)),
                start.revision + given.len() <= u64::MAX,
        {
            proof {
                let done = it.index() as int;
                batch_revision_in(start, lent(namespace), all.take(done));
                assert(all.take(done + 1).drop_last() =~= all.take(done));
                assert(all.take(done + 1).last() == given[done]@);
            }
            self.apply_in(namespace, delta);
        }
        assert(all.take(all.len() as int) =~= all);
        proof {
            batch_revision_in(start, lent(namespace), all);
        }
        self.revision > before
    }

    /// Everything in the store, for handing to a subscriber as a
    /// [`Delta::Reset`]: resetting to it gives these objects.
    pub fn snapshot(&self) -> (r: Vec<Arc<DynamicObject>>)
        ensures
            indexed(object_views(r@)) == self@.objects,
            r@.len() == self@.objects.dom().len(),
    {
        proof {
            use_type_invariant(&*self);
        }
        let n: usize = self.objects.len();
        let ghost list = self.objects.entries();
        let mut out: Vec<Arc<DynamicObject>> = Vec::new();
        let mut i: usize = 0;
        while i < n
            invariant
                i <= n,
                n == list.len(),
                list == self.objects.entries(),
                out@.len() == i,
                forall|k: int| 0 <= k < i ==> (#[trigger] out@[k]) == list[k].1,
            decreases n - i,
        {
            out.push(share(self.objects.value(i)));
            i += 1;
        }
        proof {
            entries_indexed(list);
            assert(object_views(out@) =~= list.map_values(
                |e: (ObjectRef, Arc<DynamicObject>)| e.1@,
            ));
            assert(self@.objects.dom() =~= self.objects@.dom());
        }
        out
    }

    pub fn get(&self, key: &ObjectRef) -> (r: Option<&Arc<DynamicObject>>)
        ensures
            match r {
                Some(object) => self@.objects.dom().contains(key@) && self@.objects[key@]
                    == object@,
                None => !self@.objects.dom().contains(key@),
            },
    {
        self.objects.get(key)
    }

    /// Every object with its reference, by namespace and name.
    pub fn iter(&self) -> (r: Vec<(&ObjectRef, &Arc<DynamicObject>)>)
        ensures
            keyed(self@.objects),
            r@.len() == self@.objects.dom().len(),
            forall|i: int|
                0 <= i < r@.len() ==> self@.objects.dom().contains((#[trigger] r@[i]).0@)
                    && self@.objects[r@[i].0@] == r@[i].1@,
            forall|k: RefView| #[trigger]
                self@.objects.dom().contains(k) ==> exists|i: int|
                    0 <= i < r@.len() && (#[trigger] r@[i]).0@ == k,
            forall|i: int, j: int|
                0 <= i < j < r@.len() ==> row_below(
                    ObjectRef::row((#[trigger] r@[i]).0@),
                    ObjectRef::row((#[trigger] r@[j]).0@),
                ),
    {
        proof {
            use_type_invariant(&*self);
        }
        let n: usize = self.objects.len();
        let ghost list = self.objects.entries();
        let mut out: Vec<(&ObjectRef, &Arc<DynamicObject>)> = Vec::new();
        let mut i: usize = 0;
        while i < n
            invariant
                i <= n,
                n == list.len(),
                list == self.objects.entries(),
                out@.len() == i,
                forall|k: int|
                    0 <= k < i ==> *(#[trigger] out@[k]).0 == list[k].0 && *out@[k].1 == list[k].1,
            decreases n - i,
        {
            out.push((self.objects.key(i), self.objects.value(i)));
            i += 1;
        }
        proof {
            map_of_len(list);
            assert(self@.objects.dom() =~= self.objects@.dom());
            assert forall|i: int| 0 <= i < out@.len() implies self@.objects.dom().contains(
                (#[trigger] out@[i]).0@,
            ) && self@.objects[out@[i].0@] == out@[i].1@ by {
                map_of_value(list, i);
                assert(*out@[i].0 == list[i].0);
            }
            assert forall|k: RefView| #[trigger] self@.objects.dom().contains(k) implies exists|
                i: int,
            |
                0 <= i < out@.len() && (#[trigger] out@[i]).0@ == k by {
                map_of_keys(list, k);
                let i = choose|i: int| 0 <= i < list.len() && (#[trigger] list[i]).0@ == k;
                assert(out@[i].0@ == k);
            }
            assert forall|i: int, j: int| 0 <= i < j < out@.len() implies row_below(
                ObjectRef::row((#[trigger] out@[i]).0@),
                ObjectRef::row((#[trigger] out@[j]).0@),
            ) by {
                assert(*out@[i].0 == list[i].0 && *out@[j].0 == list[j].0);
            }
        }
        out
    }

    pub fn len(&self) -> (r: usize)
        ensures
            r == self@.objects.dom().len(),
    {
        assert(self@.objects.dom() =~= self.objects@.dom());
        self.objects.len()
    }

    pub fn is_empty(&self) -> (r: bool)
        ensures
            r == (self@.objects.dom().len() == 0),
    {
        assert(self@.objects.dom() =~= self.objects@.dom());
        self.objects.len() == 0
    }

    /// Whether that many changes more can be counted.
    pub fn has_room(&self, changes: usize) -> (r: bool)
        ensures
            r == (self@.revision + changes <= u64::MAX),
    {
        changes as u64 <= u64::MAX - self.revision
    }

    /// Bumped on every effective change. A view that caches a derived index
    /// rebuilds it when this moves.
    pub fn revision(&self) -> (r: u64)
        ensures
            r == self@.revision,
    {
        self.revision
    }
}

fn same_version(a: &DynamicObject, b: &DynamicObject) -> (r: bool)
    ensures
        r == version_same(a@, b@),
{
    match (&a.metadata.resource_version, &b.metadata.resource_version) {
        (Some(a), Some(b)) => same(a.as_str(), b.as_str()),
        // Without a resourceVersion there is nothing to compare, so treat it as
        // changed rather than risk holding a stale object.
        _ => false,
    }
}

/// The annotation that holds a second copy of the manifest.
pub open spec fn last_applied() -> Seq<char> {
    "kubectl.kubernetes.io/last-applied-configuration"@
}

pub open spec fn other_annotations() -> spec_fn((Seq<char>, Seq<char>)) -> Option<
    (Seq<char>, Seq<char>),
> {
    |e: (Seq<char>, Seq<char>)|
        if e.0 == last_applied() {
            None
        } else {
            Some(e)
        }
}

/// Metadata without the parts that cost memory and that nothing in a list view
/// reads.
pub open spec fn slim_meta(meta: MetaView) -> MetaView {
    MetaView {
        managed_fields: None,
        annotations: match meta.annotations {
            Some(annotations) => {
                let rest = kept(annotations, other_annotations());
                if rest.len() == 0 {
                    None
                } else {
                    Some(rest)
                }
            },
            None => None,
        },
        ..meta
    }
}

/// An object without the parts that nothing in a list view reads.
pub open spec fn slimmed(object: ObjectView) -> ObjectView {
    ObjectView { metadata: slim_meta(object.metadata), ..object }
}

/// Leaving the same annotations out twice changes nothing more.
proof fn kept_twice(list: Seq<(Seq<char>, Seq<char>)>)
    ensures
        kept(kept(list, other_annotations()), other_annotations()) == kept(
            list,
            other_annotations(),
        ),
    decreases list.len(),
{
    if list.len() > 0 {
        kept_twice(list.drop_last());
        let front = kept(list.drop_last(), other_annotations());
        if list.last().0 != last_applied() {
            assert(front.push(list.last()).drop_last() =~= front);
        }
    }
}

/// Slimming an object twice is slimming it once.
pub proof fn slim_is_idempotent(object: ObjectView)
    ensures
        slimmed(slimmed(object)) == slimmed(object),
{
    if let Some(annotations) = object.metadata.annotations {
        kept_twice(annotations);
    }
}

/// Slimming an object keeps its reference and its version.
pub proof fn slim_keeps_identity(object: ObjectView)
    ensures
        ref_of(slimmed(object)) == ref_of(object),
        slimmed(object).metadata.resource_version == object.metadata.resource_version,
        slimmed(object).data == object.data,
{
}

/// Drops the parts of an object that cost memory and that nothing in a list
/// view reads: the managed fields, and the annotation with a second full copy of
/// the manifest.
pub fn slim(object: DynamicObject) -> (r: DynamicObject)
    ensures
        r@ == slimmed(object@),
{
    let ghost before = object@;
    let mut object = object;
    let annotations: Option<Vec<(String, String)>> = match &object.metadata.annotations {
        Some(list) => {
            let ghost all = pairs(list@);
            let mut rest: Vec<(String, String)> = Vec::new();
            let mut i: usize = 0;
            assert(pairs(rest@) =~= Seq::empty());
            proof {
                kept_bounds(all, other_annotations());
            }
            while i < list.len()
                invariant
                    i <= list.len(),
                    all == pairs(list@),
                    pairs(rest@) == kept(all.take(i as int), other_annotations()),
                decreases list.len() - i,
            {
                proof {
                    kept_next(all, i as int, other_annotations());
                    assert(all[i as int] == (list@[i as int].0@, list@[i as int].1@));
                }
                if !same(
                    list[i].0.as_str(),
                    "kubectl.kubernetes.io/last-applied-configuration",
                ) {
                    let ghost earlier = rest@;
                    rest.push((list[i].0.clone(), list[i].1.clone()));
                    assert(pairs(rest@) =~= pairs(earlier).push(all[i as int]));
                }
                i += 1;
            }
            assert(pairs(rest@).len() == rest@.len());
            if rest.len() == 0 {
                None
            } else {
                Some(rest)
            }
        },
        None => None,
    };
    object.metadata.managed_fields = None;
    object.metadata.annotations = annotations;
    object
}

} // verus!
