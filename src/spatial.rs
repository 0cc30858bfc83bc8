//! The two collections the store is built from: rstar's R-tree of envelopes tagged
//! with identifiers, and hashbrown's table from identifier to geometry.
use vstd::multiset::Multiset;
use vstd::prelude::*;

use crate::geom_ex::{box_valid, BoxView, GeomEx};
use rstar::primitives::{GeomWithData, Rectangle};
use rstar::{RTree, AABB};

verus! {

/// An entry of the spatial index: an identifier and its envelope.
pub type IndexKey = (u64, BoxView);

pub open spec fn key_box(lo_x: i64, lo_y: i64, hi_x: i64, hi_y: i64) -> BoxView {
    ((lo_x as int, lo_y as int), (hi_x as int, hi_y as int))
}

/// Every envelope held is a valid box.
pub open spec fn all_valid(m: Multiset<IndexKey>) -> bool {
    forall|k: IndexKey| #[trigger] m.contains(k) ==> box_valid(k.1)
}

/// No entry is held twice, and no two entries share an identifier.
pub open spec fn ids_unique(m: Multiset<IndexKey>) -> bool {
    &&& forall|k: IndexKey| #[trigger] m.count(k) <= 1
    &&& forall|k1: IndexKey, k2: IndexKey| #[trigger] m.contains(k1) && #[trigger] m.contains(k2) && k1.0 == k2.0 ==> k1 == k2
}

/// `r` names the identifiers of exactly the entries of `m` that satisfy `f`.
pub open spec fn lists_ids_where(r: Seq<u64>, m: Multiset<IndexKey>, f: spec_fn(BoxView) -> bool) -> bool {
    &&& forall|i: int|
        0 <= i < r.len() ==> exists|k: IndexKey| #[trigger] m.contains(k) && k.0 == #[trigger] r[i] && f(k.1)
    &&& forall|k: IndexKey| #[trigger] m.contains(k) && f(k.1) ==> r.contains(k.0)
}

/// An R-tree of rectangles, each tagged with an identifier.
#[verifier::external_body]
pub struct SpatialIndex {
    tree: RTree<GeomWithData<Rectangle<[i64; 2]>, u64>>,
}

/// The entries an index holds.
pub uninterp spec fn index_entries(t: SpatialIndex) -> Multiset<IndexKey>;

impl SpatialIndex {
    /// Relies on rstar::RTree::new: a new tree is empty.
    #[verifier::external_body]
    pub(crate) fn new() -> (r: SpatialIndex)
        ensures
            index_entries(r) == Multiset::<IndexKey>::empty(),
    {
        SpatialIndex { tree: RTree::new() }
    }

    /// Relies on rstar::RTree::insert: the entry is added beside those already held.
    /// Rectangle::from_corners keeps corners that are already ordered.
    #[verifier::external_body]
    pub(crate) fn insert(&mut self, id: u64, lo_x: i64, lo_y: i64, hi_x: i64, hi_y: i64)
        requires
            box_valid(key_box(lo_x, lo_y, hi_x, hi_y)),
            all_valid(index_entries(*old(self))),
        ensures
            index_entries(*final(self)) == index_entries(*old(self)).insert(
                (id, key_box(lo_x, lo_y, hi_x, hi_y)),
            ),
    {
        self.tree.insert(GeomWithData::new(Rectangle::from_corners([lo_x, lo_y], [hi_x, hi_y]), id));
    }

    /// Relies on rstar::RTree::remove: one entry equal to the given one is taken out
    /// and handed back, or nothing changes where none is held.
    #[verifier::external_body]
    pub(crate) fn remove(&mut self, id: u64, lo_x: i64, lo_y: i64, hi_x: i64, hi_y: i64) -> (r: Option<u64>)
        requires
            box_valid(key_box(lo_x, lo_y, hi_x, hi_y)),
            all_valid(index_entries(*old(self))),
        ensures
            index_entries(*final(self)) == index_entries(*old(self)).remove(
                (id, key_box(lo_x, lo_y, hi_x, hi_y)),
            ),
            r == (if index_entries(*old(self)).contains((id, key_box(lo_x, lo_y, hi_x, hi_y))) {
                Some(id)
            } else {
                None::<u64>
            }),
    {
        let query = GeomWithData::new(Rectangle::from_corners([lo_x, lo_y], [hi_x, hi_y]), id);
        self.tree.remove(&query).map(|g| g.data)
    }

    /// Relies on rstar::RTree::locate_all_at_point: the entries whose rectangle holds
    /// the point, edges included, each held entry yielded once.
    #[verifier::external_body]
    pub(crate) fn ids_at_point(&self, x: i64, y: i64) -> (r: Vec<u64>)
        requires
            all_valid(index_entries(*self)),
        ensures
            lists_ids_where(
                r@,
                index_entries(*self),
                |b: BoxView| b.0.0 <= x && x <= b.1.0 && b.0.1 <= y && y <= b.1.1,
            ),
            ids_unique(index_entries(*self)) ==> r@.no_duplicates(),
    {
        self.tree.locate_all_at_point(&[x, y]).map(|g| g.data).collect()
    }

    /// Relies on rstar::RTree::locate_within_distance: the entries whose rectangle lies
    /// within squared distance `max_d2` of the point, each held entry yielded once.
    #[verifier::external_body]
    pub(crate) fn ids_within(&self, x: i64, y: i64, max_d2: i64) -> (r: Vec<u64>)
        requires
            all_valid(index_entries(*self)),
            box_valid(key_box(x, y, x, y)),
        ensures
            lists_ids_where(
                r@,
                index_entries(*self),
                |b: BoxView| crate::geom_ex::box_dist2(b, (x as int, y as int)) <= max_d2,
            ),
            ids_unique(index_entries(*self)) ==> r@.no_duplicates(),
    {
        self.tree.locate_within_distance([x, y], max_d2).map(|g| g.data).collect()
    }

    /// Relies on rstar::RTree::locate_in_envelope_intersecting: the entries whose
    /// rectangle shares a point with the query box, edges included, each held entry
    /// yielded once.
    #[verifier::external_body]
    pub(crate) fn ids_intersecting(&self, lo_x: i64, lo_y: i64, hi_x: i64, hi_y: i64) -> (r: Vec<u64>)
        requires
            all_valid(index_entries(*self)),
            box_valid(key_box(lo_x, lo_y, hi_x, hi_y)),
        ensures
            lists_ids_where(
                r@,
                index_entries(*self),
                |b: BoxView| crate::geom_ex::box_intersects(b, key_box(lo_x, lo_y, hi_x, hi_y)),
            ),
            ids_unique(index_entries(*self)) ==> r@.no_duplicates(),
    {
        let query = AABB::from_corners([lo_x, lo_y], [hi_x, hi_y]);
        self.tree.locate_in_envelope_intersecting(&query).map(|g| g.data).collect()
    }
}

/// A table from identifier to geometry.
#[verifier::external_body]
pub struct IdMap {
    map: hashbrown::HashMap<u64, GeomEx>,
}

/// What a table holds.
pub uninterp spec fn id_map_contents(m: IdMap) -> Map<u64, GeomEx>;

impl IdMap {
    /// Relies on hashbrown::HashMap::new: a new table is empty.
    #[verifier::external_body]
    pub(crate) fn new() -> (r: IdMap)
        ensures
            id_map_contents(r).dom() == Set::<u64>::empty(),
    {
        IdMap { map: hashbrown::HashMap::new() }
    }

    /// Relies on hashbrown::HashMap::get: the geometry stored under `id`, if any.
    #[verifier::external_body]
    pub(crate) fn get(&self, id: u64) -> (r: Option<&GeomEx>)
        ensures
            id_map_contents(*self).contains_key(id) ==> r is Some && *r->Some_0 == id_map_contents(*self)[id],
            !id_map_contents(*self).contains_key(id) ==> r is None,
    {
        self.map.get(&id)
    }

    /// Relies on hashbrown::HashMap::insert: stores the geometry under `id`, handing
    /// back the one it replaces.
    #[verifier::external_body]
    pub(crate) fn insert(&mut self, id: u64, geom: GeomEx) -> (r: Option<GeomEx>)
        ensures
            id_map_contents(*final(self)) == id_map_contents(*old(self)).insert(id, geom),
            id_map_contents(*old(self)).contains_key(id) ==> r == Some(id_map_contents(*old(self))[id]),
            !id_map_contents(*old(self)).contains_key(id) ==> r is None,
    {
        self.map.insert(id, geom)
    }

    /// Relies on hashbrown::HashMap::remove: takes out the geometry stored under `id`.
    #[verifier::external_body]
    pub(crate) fn remove(&mut self, id: u64) -> (r: Option<GeomEx>)
        ensures
            id_map_contents(*final(self)) == id_map_contents(*old(self)).remove(id),
            id_map_contents(*old(self)).contains_key(id) ==> r == Some(id_map_contents(*old(self))[id]),
            !id_map_contents(*old(self)).contains_key(id) ==> r is None,
    {
        self.map.remove(&id)
    }
}

} // verus!
