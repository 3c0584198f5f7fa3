//! The state of the whole system at one instant.

use crate::label_map::{
    entries_map, lemma_sorted_index_of, lemma_sorted_unique, sorted, LabelMap,
};
use crate::number::Real;
use crate::simulation::body::{Body, BodyView};
use vstd::prelude::*;

verus! {

/// The labels of the bodies, in the order of the bodies.
pub open spec fn labels_of<T>(bodies: Seq<BodyView<T>>) -> Seq<Seq<char>> {
    bodies.map_values(|b: BodyView<T>| b.label)
}

/// One instant's complete state of the system: the bodies, each under its
/// label, in the order of their labels. No two bodies of a map share a
/// label.
pub struct BodyMap<T, const N: usize> {
    map: LabelMap<Body<T, N>>,
}

impl<T, const N: usize> View for BodyMap<T, N> {
    type V = Map<Seq<char>, BodyView<T>>;

    /// The bodies by their labels.
    closed spec fn view(&self) -> Map<Seq<char>, BodyView<T>> {
        entries_map(self.labels(), self.bodies())
    }
}

impl<T, const N: usize> BodyMap<T, N> {
    /// The bodies in the order in which the map is walked: that of their
    /// labels.
    pub closed spec fn bodies(&self) -> Seq<BodyView<T>> {
        self.map.values().map_values(|b: Body<T, N>| b@)
    }

    /// The labels in the order in which the map is walked.
    pub open spec fn labels(&self) -> Seq<Seq<char>> {
        labels_of(self.bodies())
    }

    /// Whether the map is as every map that a program can get hold of is:
    /// the bodies stand in strictly ascending order of their labels.
    #[verifier::type_invariant]
    pub closed spec fn wf(&self) -> bool {
        &&& self.map.wf()
        &&& self.map.keys() == self.labels()
    }

    /// What holds of a well-formed map: its labels ascend strictly, so no
    /// label occurs twice, and the view holds each body under its label.
    pub proof fn lemma_wf(&self)
        requires
            self.wf(),
        ensures
            sorted(self.labels()),
            self@ == entries_map(self.labels(), self.bodies()),
            self.labels().no_duplicates(),
            self.labels().len() == self.bodies().len(),
            forall|i: int|
                0 <= i < self.bodies().len() ==> #[trigger] self.bodies()[i].label
                    == self.labels()[i],
            forall|label: Seq<char>| self@.dom().contains(label) <==> self.labels().contains(label),
            forall|i: int|
                0 <= i < self.bodies().len() ==> #[trigger] self@[self.labels()[i]]
                    == self.bodies()[i],
    {
        self.map.lemma_entries();
        let labels = self.labels();
        assert forall|i: int| 0 <= i < self.bodies().len() implies #[trigger] self@[labels[i]]
            == self.bodies()[i] by {
            lemma_sorted_index_of(self.labels(), i);
        }
    }

    /// An empty map.
    pub fn new() -> (r: Self)
        ensures
            r.bodies() == Seq::<BodyView<T>>::empty(),
            r@ == Map::<Seq<char>, BodyView<T>>::empty(),
            r.wf(),
    {
        let map = LabelMap::new();
        proof {
            map.lemma_entries();
            assert(map.values().map_values(|b: Body<T, N>| b@) =~= Seq::<BodyView<T>>::empty());
            assert(labels_of(Seq::<BodyView<T>>::empty()) =~= Seq::<Seq<char>>::empty());
        }
        let r = BodyMap { map };
        proof {
            assert(r@ =~= Map::<Seq<char>, BodyView<T>>::empty());
        }
        r
    }

    /// The number of bodies.
    pub fn len(&self) -> (r: usize)
        ensures
            r == self.bodies().len(),
    {
        proof {
            use_type_invariant(self);
            self.map.lemma_entries();
        }
        self.map.len()
    }

    /// Whether the map holds no body.
    pub fn is_empty(&self) -> (r: bool)
        ensures
            r == (self.bodies().len() == 0),
    {
        proof {
            use_type_invariant(self);
            self.map.lemma_entries();
        }
        self.map.is_empty()
    }

    /// The body at position `i` of the walk.
    pub fn body_at(&self, i: usize) -> (r: &Body<T, N>)
        requires
            i < self.bodies().len(),
        ensures
            r@ == self.bodies()[i as int],
            self.wf(),
    {
        proof {
            use_type_invariant(self);
            self.lemma_wf();
        }
        self.map.value_at(i)
    }

    /// The bodies in the order of their labels.
    pub fn values(&self) -> (r: Vec<&Body<T, N>>)
        ensures
            r@.map_values(|b: &Body<T, N>| b@) == self.bodies(),
            self.wf(),
    {
        proof {
            use_type_invariant(self);
            self.lemma_wf();
        }
        let mut bodies: Vec<&Body<T, N>> = Vec::new();
        let n = self.map.len();
        let mut i: usize = 0;
        while i < n
            invariant
                0 <= i <= n,
                n == self.bodies().len(),
                n == self.map.keys().len(),
                bodies@.len() == i,
                forall|k: int| 0 <= k < i ==> (#[trigger] bodies@[k])@ == self.bodies()[k],
            decreases n - i,
        {
            bodies.push(self.map.value_at(i));
            i += 1;
        }
        assert(bodies@.map_values(|b: &Body<T, N>| b@) =~= self.bodies());
        bodies
    }

    /// Whether the map holds a body with the given label.
    pub fn contains_key(&self, label: &str) -> (r: bool)
        ensures
            r == self@.dom().contains(label@),
            r == self.labels().contains(label@),
    {
        proof {
            use_type_invariant(self);
            self.lemma_wf();
            self.map.lemma_entries();
        }
        self.map.contains_key(label)
    }

    /// The body with the given label, if the map holds one.
    pub fn get(&self, label: &str) -> (r: Option<&Body<T, N>>)
        ensures
            r is Some <==> self@.dom().contains(label@),
            r matches Some(body) ==> body@ == self@[label@] && body@.label == label@,
    {
        proof {
            use_type_invariant(self);
            self.lemma_wf();
            self.map.lemma_entries();
        }
        let r = self.map.get(label);
        proof {
            if r is Some {
                let i = choose|i: int| 0 <= i < self.labels().len() && self.labels()[i] == label@;
                assert(self.map@[self.map.keys()[i]] == self.map.values()[i]);
                assert(self@[self.labels()[i]] == self.bodies()[i]);
            }
        }
        r
    }

    /// Puts `body` into the map under its label, and returns the body that
    /// was there under that label before, if any.
    pub fn insert(&mut self, body: Body<T, N>) -> (r: Option<Body<T, N>>)
        ensures
            final(self)@ == old(self)@.insert(body@.label, body@),
            r is Some <==> old(self)@.dom().contains(body@.label),
            r matches Some(previous) ==> previous@ == old(self)@[body@.label],
            final(self).wf(),
    {
        proof {
            use_type_invariant(&*self);
            self.lemma_wf();
            self.map.lemma_entries();
        }
        let ghost old_self = *self;
        let ghost body_view = body@;
        let mut map: LabelMap<Body<T, N>> = LabelMap::new();
        proof {
            map.lemma_entries();
            assert(map.values().map_values(|b: Body<T, N>| b@) =~= Seq::<BodyView<T>>::empty());
            assert(labels_of(Seq::<BodyView<T>>::empty()) =~= Seq::<Seq<char>>::empty());
        }
        core::mem::swap(&mut self.map, &mut map);
        let ghost old_map = map;
        let label = body.label.clone();
        let r = map.insert(label, body);
        proof {
            map.lemma_entries();
            old_map.lemma_entries();
            lemma_values_follow_keys(old_map, map, body);
            if r is Some {
                let i = choose|i: int|
                    0 <= i < old_self.labels().len() && old_self.labels()[i] == body_view.label;
                assert(old_map@[old_map.keys()[i]] == old_map.values()[i]);
                assert(old_self@[old_self.labels()[i]] == old_self.bodies()[i]);
            }
        }
        self.map = map;
        proof {
            self.lemma_wf();
            assert(self@ =~= old_self@.insert(body_view.label, body_view)) by {
                lemma_view_after_insert(old_map, map, body);
            }
        }
        r
    }
}

/// The bodies of a map, in the order of their labels, are determined by
/// what the map holds under each label.
pub proof fn lemma_order_determined<T>(a: Seq<BodyView<T>>, b: Seq<BodyView<T>>)
    requires
        sorted(labels_of(a)),
        sorted(labels_of(b)),
        entries_map(labels_of(a), a) == entries_map(labels_of(b), b),
    ensures
        a == b,
{
    let la = labels_of(a);
    let lb = labels_of(b);
    let m = entries_map(la, a);
    assert forall|k: Seq<char>| la.contains(k) <==> lb.contains(k) by {
        assert(m.dom().contains(k) == la.contains(k));
        assert(entries_map(lb, b).dom().contains(k) == lb.contains(k));
    }
    lemma_sorted_unique(la, lb);
    assert forall|i: int| 0 <= i < a.len() implies a[i] == b[i] by {
        lemma_sorted_index_of(la, i);
        assert(m[la[i]] == a[i]);
        assert(entries_map(lb, b)[lb[i]] == b[i]);
    }
    assert(a =~= b);
}

/// The bodies by their labels, each with no force acting on it; of two
/// bodies with one label the later one stays.
pub open spec fn bodies_by_label<T>(bodies: Seq<BodyView<T>>) -> Map<Seq<char>, BodyView<T>>
    decreases bodies.len(),
{
    if bodies.len() == 0 {
        Map::empty()
    } else {
        bodies_by_label(bodies.drop_last()).insert(bodies.last().label, bodies.last().at_rest())
    }
}

/// The map that holds a fresh copy of each of the bodies under its label.
/// Where several bodies share a label the last of them is kept.
pub fn body_map_from_bodies<T: Real, const N: usize>(bodies: &Vec<Body<T, N>>) -> (body_map:
    BodyMap<T, N>)
    ensures
        body_map@ == bodies_by_label(bodies@.map_values(|b: Body<T, N>| b@)),
        body_map.wf(),
{
    let ghost views = bodies@.map_values(|b: Body<T, N>| b@);
    let mut body_map = BodyMap::new();
    let mut i: usize = 0;
    assert(views.take(0) =~= Seq::<BodyView<T>>::empty());
    while i < bodies.len()
        invariant
            0 <= i <= bodies.len(),
            views == bodies@.map_values(|b: Body<T, N>| b@),
            body_map@ == bodies_by_label(views.take(i as int)),
            body_map.wf(),
        decreases bodies.len() - i,
    {
        let body = &bodies[i];
        proof {
            let next = views.take(i + 1);
            assert(next.drop_last() =~= views.take(i as int));
            assert(next.last() == body@);
        }
        body_map.insert(
            Body::new(
                body.label.clone(),
                body.mass,
                body.diameter,
                body.position,
                body.velocity,
                body.spin,
            ),
        );
        i += 1;
    }
    assert(views.take(i as int) =~= views);
    body_map
}

/// The map of the views of the bodies of a label map.
spec fn views_by_label<T, const N: usize>(map: LabelMap<Body<T, N>>) -> Map<
    Seq<char>,
    BodyView<T>,
> {
    entries_map(map.keys(), map.values().map_values(|b: Body<T, N>| b@))
}

/// The views of the bodies of a label map are the views of its values.
proof fn lemma_views_by_label<T, const N: usize>(map: LabelMap<Body<T, N>>)
    requires
        map.wf(),
    ensures
        views_by_label(map) == map@.map_values(|b: Body<T, N>| b@),
{
    map.lemma_entries();
    let a = views_by_label(map);
    let b = map@.map_values(|b: Body<T, N>| b@);
    assert forall|k: Seq<char>| a.dom().contains(k) implies #[trigger] a[k] == b[k] by {
        map.keys().index_of_first_ensures(k);
        let i = map.keys().index_of(k);
        assert(map@[map.keys()[i]] == map.values()[i]);
    }
    assert(a =~= b);
}

/// After a body has been put under its own label, every body of the map
/// still stands under its own label.
proof fn lemma_values_follow_keys<T, const N: usize>(
    old_map: LabelMap<Body<T, N>>,
    new_map: LabelMap<Body<T, N>>,
    body: Body<T, N>,
)
    requires
        old_map.wf(),
        new_map.wf(),
        old_map.keys() == labels_of(old_map.values().map_values(|b: Body<T, N>| b@)),
        new_map@ == old_map@.insert(body.label@, body),
    ensures
        new_map.keys() == labels_of(new_map.values().map_values(|b: Body<T, N>| b@)),
{
    old_map.lemma_entries();
    new_map.lemma_entries();
    let keys = new_map.keys();
    let labels = labels_of(new_map.values().map_values(|b: Body<T, N>| b@));
    assert forall|i: int| 0 <= i < keys.len() implies keys[i] == labels[i] by {
        assert(new_map@[keys[i]] == new_map.values()[i]);
        assert(keys.contains(keys[i]));
        assert(new_map@.dom().contains(keys[i]));
        if keys[i] != body.label@ {
            assert(old_map@.dom().contains(keys[i]));
            assert(old_map.keys().contains(keys[i]));
            let j = choose|j: int| 0 <= j < old_map.keys().len() && old_map.keys()[j] == keys[i];
            assert(old_map@[old_map.keys()[j]] == old_map.values()[j]);
            assert(old_map.keys()[j] == old_map.values().map_values(|b: Body<T, N>| b@)[j].label);
        }
    }
    assert(keys =~= labels);
}

/// Putting a body into a label map puts its view into the map of views.
proof fn lemma_view_after_insert<T, const N: usize>(
    old_map: LabelMap<Body<T, N>>,
    new_map: LabelMap<Body<T, N>>,
    body: Body<T, N>,
)
    requires
        old_map.wf(),
        new_map.wf(),
        new_map@ == old_map@.insert(body.label@, body),
    ensures
        views_by_label(new_map) == views_by_label(old_map).insert(body.label@, body@),
{
    lemma_views_by_label(old_map);
    lemma_views_by_label(new_map);
    assert(new_map@.map_values(|b: Body<T, N>| b@) =~= old_map@.map_values(
        |b: Body<T, N>| b@,
    ).insert(body.label@, body@));
}

} // verus!
