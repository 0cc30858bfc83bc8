//! The store: a table from identifier to geometry and an R-tree of the same
//! entries' envelopes, kept in step by every mutation.
use vstd::prelude::*;

use crate::geom_ex::{
    box_contains, box_dist2, box_intersects, box_valid, point_dist2, shape_envelope, GeomEx, Pt, Shape,
};
use crate::spatial::{
    all_valid, id_map_contents, ids_unique, index_entries, key_box, lists_ids_where, IdMap, IndexKey, SpatialIndex,
};

verus! {

/// A geometry with its identifier.
#[derive(Debug)]
pub struct GeomExWithData {
    pub data: u64,
    pub geom: GeomEx,
}

impl GeomExWithData {
    pub fn new(data: u64, geom: GeomEx) -> (r: GeomExWithData)
        ensures
            r.data == data,
            r.geom == geom,
    {
        GeomExWithData { data, geom }
    }
}

/// An identifier under which nothing is stored.
#[derive(Clone, Copy, Debug, PartialEq, Eq, Structural)]
pub struct MissingGeom(pub u64);

/// What is stored under an identifier: its entry, or nothing.
#[derive(Debug)]
pub enum GeomLookup {
    Missing(MissingGeom),
    Found(GeomExWithData),
}

/// `r` tells truly what the store `m` holds under `id`.
pub open spec fn lookup_matches(r: GeomLookup, id: u64, m: Map<u64, Shape>) -> bool {
    match r {
        GeomLookup::Found(e) => m.contains_key(id) && e.data == id && e.geom@ == m[id],
        GeomLookup::Missing(g) => !m.contains_key(id) && g.0 == id,
    }
}

/// `r` holds an entry of `m` for each identifier whose geometry satisfies `f`, once,
/// and no other entries.
pub open spec fn reports_exactly(r: Seq<GeomExWithData>, m: Map<u64, Shape>, f: spec_fn(Shape) -> bool) -> bool {
    &&& forall|i: int|
        0 <= i < r.len() ==> m.contains_key(#[trigger] r[i].data) && r[i].geom@ == m[r[i].data] && f(
            m[r[i].data],
        )
    &&& forall|id: u64| #[trigger] m.contains_key(id) && f(m[id]) ==> exists|i: int| 0 <= i < r.len() && r[i].data == id
    &&& forall|i: int, j: int| 0 <= i < j < r.len() ==> (#[trigger] r[i]).data != (#[trigger] r[j]).data
}

/// The store after upserting each pair in turn: a later pair replaces an earlier one.
pub open spec fn upsert_all(m: Map<u64, Shape>, items: Seq<(u64, Shape)>) -> Map<u64, Shape>
    decreases items.len(),
{
    if items.len() == 0 {
        m
    } else {
        upsert_all(m, items.drop_last()).insert(items.last().0, items.last().1)
    }
}

/// The store after removing each identifier in turn.
pub open spec fn remove_all(m: Map<u64, Shape>, ids: Seq<u64>) -> Map<u64, Shape>
    decreases ids.len(),
{
    if ids.len() == 0 {
        m
    } else {
        remove_all(m, ids.drop_last()).remove(ids.last())
    }
}

/// A batch of entries as (identifier, shape) pairs.
pub open spec fn items_view(items: Seq<GeomExWithData>) -> Seq<(u64, Shape)> {
    items.map_values(|e: GeomExWithData| (e.data, e.geom@))
}

/// The store's two structures.
pub struct RTreeInner {
    map: IdMap,
    tree: SpatialIndex,
}

impl View for RTreeInner {
    type V = Map<u64, Shape>;

    closed spec fn view(&self) -> Map<u64, Shape> {
        id_map_contents(self.map).map_values(|g: GeomEx| g@)
    }
}

/// The index entry that stands for identifier `id` with geometry `s`.
pub open spec fn key_of(id: u64, s: Shape) -> IndexKey {
    (id, shape_envelope(s))
}

impl RTreeInner {
    /// The table and the index hold the same entries: each stored geometry has exactly
    /// one index entry with its envelope, and each index entry is such a one.
    pub closed spec fn wf(&self) -> bool {
        let m = id_map_contents(self.map);
        let t = index_entries(self.tree);
        &&& forall|id: u64| #[trigger] m.contains_key(id) ==> t.count(key_of(id, m[id]@)) == 1
        &&& forall|k: IndexKey| #[trigger] t.contains(k) ==> m.contains_key(k.0) && k == key_of(k.0, m[k.0]@)
        &&& all_valid(t)
    }

    /// An empty store.
    pub fn new() -> (r: RTreeInner)
        ensures
            r.wf(),
            r@ == Map::<u64, Shape>::empty(),
    {
        let r = RTreeInner { map: IdMap::new(), tree: SpatialIndex::new() };
        assert(r@ =~= Map::<u64, Shape>::empty());
        r
    }

    /// Takes out whatever is stored under `id`.
    fn remove_id(&mut self, id: u64) -> (r: GeomLookup)
        requires
            old(self).wf(),
        ensures
            final(self).wf(),
            final(self)@ == old(self)@.remove(id),
            lookup_matches(r, id, old(self)@),
    {
        let ghost m0 = id_map_contents(self.map);
        let ghost t0 = index_entries(self.tree);
        match self.map.remove(id) {
            Some(geom) => {
                let env = geom.envelope();
                let (lo, hi) = (env.lower(), env.upper());
                let ghost key = key_of(id, geom@);
                assert(t0.count(key) == 1);
                let removed = self.tree.remove(id, lo.lon(), lo.lat(), hi.lon(), hi.lat());
                assert(removed is Some);
                proof {
                    let m1 = id_map_contents(self.map);
                    let t1 = index_entries(self.tree);
                    assert forall|i: u64| #[trigger] m1.contains_key(i) implies t1.count(key_of(i, m1[i]@)) == 1 by {
                        assert(key_of(i, m1[i]@) != key);
                    }
                    assert forall|k: IndexKey| #[trigger] t1.contains(k) implies m1.contains_key(k.0) && k == key_of(
                        k.0,
                        m1[k.0]@,
                    ) by {
                        assert(t0.contains(k));
                    }
                    assert(all_valid(t1)) by {
                        assert forall|k: IndexKey| #[trigger] t1.contains(k) implies box_valid(k.1) by {
                            assert(t0.contains(k));
                        }
                    }
                    assert(self@ =~= old(self)@.remove(id));
                }
                GeomLookup::Found(GeomExWithData { data: id, geom })
            },
            None => {
                proof {
                    assert(self@ =~= old(self)@.remove(id));
                }
                GeomLookup::Missing(MissingGeom(id))
            },
        }
    }
}

impl RTreeInner {
    /// Stores `geom` under `id`, handing back what it replaces.
    fn upsert_one(&mut self, id: u64, geom: GeomEx) -> (r: GeomLookup)
        requires
            old(self).wf(),
        ensures
            final(self).wf(),
            final(self)@ == old(self)@.insert(id, geom@),
            lookup_matches(r, id, old(self)@),
    {
        let prev = self.remove_id(id);
        let ghost m0 = id_map_contents(self.map);
        let ghost t0 = index_entries(self.tree);
        let ghost mid = self@;
        let env = geom.envelope();
        let (lo, hi) = (env.lower(), env.upper());
        let ghost key = key_of(id, geom@);
        assert(!mid.contains_key(id));
        assert(mid.dom() == m0.dom());
        assert(!m0.contains_key(id));
        assert(!t0.contains(key));
        self.tree.insert(id, lo.lon(), lo.lat(), hi.lon(), hi.lat());
        let ghost g = geom;
        let _ = self.map.insert(id, geom);
        proof {
            let m1 = id_map_contents(self.map);
            let t1 = index_entries(self.tree);
            assert(m1 == m0.insert(id, g));
            assert forall|i: u64| #[trigger] m1.contains_key(i) implies t1.count(key_of(i, m1[i]@)) == 1 by {
                if i != id {
                    assert(key_of(i, m1[i]@) != key);
                }
            }
            assert forall|k: IndexKey| #[trigger] t1.contains(k) implies m1.contains_key(k.0) && k == key_of(
                k.0,
                m1[k.0]@,
            ) by {
                if k != key {
                    assert(t0.contains(k));
                }
            }
            assert(all_valid(t1)) by {
                assert forall|k: IndexKey| #[trigger] t1.contains(k) implies box_valid(k.1) by {
                    if k != key {
                        assert(t0.contains(k));
                    }
                }
            }
            assert(self@ =~= mid.insert(id, g@));
            assert(mid.insert(id, g@) =~= old(self)@.insert(id, g@));
        }
        prev
    }

    /// Stores each entry of the batch in turn, replacing whatever its identifier held,
    /// and tells for each what it replaced.
    pub fn upsert_many(&mut self, items: Vec<GeomExWithData>) -> (r: Vec<GeomLookup>)
        requires
            old(self).wf(),
        ensures
            final(self).wf(),
            final(self)@ == upsert_all(old(self)@, items_view(items@)),
            r@.len() == items@.len(),
            forall|i: int|
                0 <= i < r@.len() ==> lookup_matches(
                    #[trigger] r@[i],
                    items@[i].data,
                    upsert_all(old(self)@, items_view(items@).take(i)),
                ),
    {
        let ghost start = self@;
        let ghost iv = items_view(items@);
        let mut prevs: Vec<GeomLookup> = Vec::with_capacity(items.len());
        let mut i: usize = 0;
        while i < items.len()
            invariant
                i <= items@.len(),
                iv == items_view(items@),
                self.wf(),
                self@ == upsert_all(start, iv.take(i as int)),
                prevs@.len() == i,
                forall|j: int|
                    0 <= j < i ==> lookup_matches(#[trigger] prevs@[j], items@[j].data, upsert_all(start, iv.take(j))),
            decreases items@.len() - i,
        {
            let id = items[i].data;
            let geom = items[i].geom.duplicate();
            assert(iv.take(i as int + 1).drop_last() == iv.take(i as int));
            let prev = self.upsert_one(id, geom);
            prevs.push(prev);
            i = i + 1;
        }
        assert(iv.take(items@.len() as int) == iv);
        prevs
    }

    /// Takes out each identifier in turn, and tells for each what was removed.
    pub fn remove(&mut self, ids: &[u64]) -> (r: Vec<GeomLookup>)
        requires
            old(self).wf(),
        ensures
            final(self).wf(),
            final(self)@ == remove_all(old(self)@, ids@),
            r@.len() == ids@.len(),
            forall|i: int|
                0 <= i < r@.len() ==> lookup_matches(#[trigger] r@[i], ids@[i], remove_all(old(self)@, ids@.take(i))),
    {
        let ghost start = self@;
        let mut prevs: Vec<GeomLookup> = Vec::with_capacity(ids.len());
        let mut i: usize = 0;
        while i < ids.len()
            invariant
                i <= ids@.len(),
                self.wf(),
                self@ == remove_all(start, ids@.take(i as int)),
                prevs@.len() == i,
                forall|j: int|
                    0 <= j < i ==> lookup_matches(#[trigger] prevs@[j], ids@[j], remove_all(start, ids@.take(j))),
            decreases ids@.len() - i,
        {
            assert(ids@.take(i as int + 1).drop_last() == ids@.take(i as int));
            let prev = self.remove_id(ids[i]);
            prevs.push(prev);
            i = i + 1;
        }
        assert(ids@.take(ids@.len() as int) == ids@);
        prevs
    }

    /// Tells for each identifier what is stored under it.
    pub fn lookup(&self, ids: &[u64]) -> (r: Vec<GeomLookup>)
        requires
            self.wf(),
        ensures
            r@.len() == ids@.len(),
            forall|i: int| 0 <= i < r@.len() ==> lookup_matches(#[trigger] r@[i], ids@[i], self@),
    {
        let mut out: Vec<GeomLookup> = Vec::with_capacity(ids.len());
        let mut i: usize = 0;
        while i < ids.len()
            invariant
                i <= ids@.len(),
                out@.len() == i,
                forall|j: int| 0 <= j < i ==> lookup_matches(#[trigger] out@[j], ids@[j], self@),
            decreases ids@.len() - i,
        {
            let id = ids[i];
            let found = match self.map.get(id) {
                Some(geom) => GeomLookup::Found(GeomExWithData { data: id, geom: geom.duplicate() }),
                None => GeomLookup::Missing(MissingGeom(id)),
            };
            out.push(found);
            i = i + 1;
        }
        out
    }
}

impl RTreeInner {
    /// Index entries found by a test `f` on their envelopes are the stored entries
    /// whose geometry passes `g`, when `g` is `f` applied to the envelope.
    proof fn lemma_found_ids(
        &self,
        ids: Seq<u64>,
        f: spec_fn(crate::geom_ex::BoxView) -> bool,
        g: spec_fn(Shape) -> bool,
    )
        requires
            self.wf(),
            lists_ids_where(ids, index_entries(self.tree), f),
            forall|s: Shape| #[trigger] g(s) == f(shape_envelope(s)),
        ensures
            forall|i: int| 0 <= i < ids.len() ==> self@.contains_key(#[trigger] ids[i]) && g(self@[ids[i]]),
            forall|id: u64| #[trigger] self@.contains_key(id) && g(self@[id]) ==> ids.contains(id),
    {
        let m = id_map_contents(self.map);
        let t = index_entries(self.tree);
        assert forall|i: int| 0 <= i < ids.len() implies self@.contains_key(#[trigger] ids[i]) && g(
            self@[ids[i]],
        ) by {
            let k = choose|k: IndexKey| #[trigger] t.contains(k) && k.0 == ids[i] && f(k.1);
            assert(m.contains_key(k.0) && k == key_of(k.0, m[k.0]@));
            assert(g(self@[ids[i]]) == f(shape_envelope(self@[ids[i]])));
        }
        assert forall|id: u64| #[trigger] self@.contains_key(id) && g(self@[id]) implies ids.contains(id) by {
            assert(m.contains_key(id));
            assert(t.count(key_of(id, m[id]@)) == 1);
            assert(t.contains(key_of(id, m[id]@)));
            assert(g(self@[id]) == f(shape_envelope(self@[id])));
        }
    }

    /// A well-formed store holds each index entry once, one per identifier.
    proof fn lemma_ids_unique(&self)
        requires
            self.wf(),
        ensures
            ids_unique(index_entries(self.tree)),
    {
        let m = id_map_contents(self.map);
        let t = index_entries(self.tree);
        assert forall|k: IndexKey| #[trigger] t.count(k) <= 1 by {
            if t.count(k) > 0 {
                assert(t.contains(k));
                assert(t.count(key_of(k.0, m[k.0]@)) == 1);
            }
        }
    }

    /// The stored entries under identifiers known to be stored, in the same order.
    fn entries_of(&self, ids: Vec<u64>) -> (r: Vec<GeomExWithData>)
        requires
            self.wf(),
            forall|i: int| 0 <= i < ids@.len() ==> self@.contains_key(#[trigger] ids@[i]),
        ensures
            r@.len() == ids@.len(),
            forall|i: int|
                0 <= i < r@.len() ==> (#[trigger] r@[i]).data == ids@[i] && r@[i].geom@ == self@[ids@[i]],
    {
        let mut out: Vec<GeomExWithData> = Vec::with_capacity(ids.len());
        let mut i: usize = 0;
        while i < ids.len()
            invariant
                i <= ids@.len(),
                out@.len() == i,
                forall|j: int| 0 <= j < ids@.len() ==> self@.contains_key(#[trigger] ids@[j]),
                forall|j: int| 0 <= j < i ==> (#[trigger] out@[j]).data == ids@[j] && out@[j].geom@ == self@[ids@[j]],
            decreases ids@.len() - i,
        {
            let id = ids[i];
            assert(self@.contains_key(id));
            let found = self.map.get(id);
            let geom = found.unwrap().duplicate();
            out.push(GeomExWithData { data: id, geom });
            i = i + 1;
        }
        out
    }

    /// Every stored entry whose envelope holds `pt`, edges included.
    pub fn all_at_point(&self, pt: Pt) -> (r: Vec<GeomExWithData>)
        requires
            self.wf(),
        ensures
            reports_exactly(r@, self@, |s: Shape| box_contains(shape_envelope(s), pt@)),
    {
        let (x, y) = (pt.lon(), pt.lat());
        let ids = self.tree.ids_at_point(x, y);
        let ghost f = |b: crate::geom_ex::BoxView| b.0.0 <= x && x <= b.1.0 && b.0.1 <= y && y <= b.1.1;
        let ghost g = |s: Shape| box_contains(shape_envelope(s), pt@);
        proof {
            self.lemma_found_ids(ids@, f, g);
        }
        proof {
            self.lemma_ids_unique();
        }
        let r = self.entries_of(ids);
        proof {
            assert forall|i: int, j: int| 0 <= i < j < r@.len() implies (#[trigger] r@[i]).data != (
            #[trigger] r@[j]).data by {
                assert(ids@[i] != ids@[j]);
            }
            assert forall|id: u64| #[trigger] self@.contains_key(id) && g(self@[id]) implies exists|i: int|
                0 <= i < r@.len() && r@[i].data == id by {
                let j = choose|j: int| 0 <= j < ids@.len() && ids@[j] == id;
                assert(r@[j].data == id);
            }
        }
        r
    }

    /// Every stored entry whose envelope lies within the planar distance from `pt` to
    /// `edge`. Callers pick `edge` as the point a chosen ground distance away from
    /// `pt`, so that this distance stands in for a radius.
    pub fn near(&self, pt: Pt, edge: Pt) -> (r: Vec<GeomExWithData>)
        requires
            self.wf(),
        ensures
            reports_exactly(r@, self@, |s: Shape| box_dist2(shape_envelope(s), pt@) <= point_dist2(pt@, edge@)),
    {
        let (x, y) = (pt.lon(), pt.lat());
        let max_d2 = pt.distance_2(&edge);
        let ids = self.tree.ids_within(x, y, max_d2);
        let ghost f = |b: crate::geom_ex::BoxView| box_dist2(b, (x as int, y as int)) <= max_d2;
        let ghost g = |s: Shape| box_dist2(shape_envelope(s), pt@) <= point_dist2(pt@, edge@);
        proof {
            self.lemma_found_ids(ids@, f, g);
        }
        proof {
            self.lemma_ids_unique();
        }
        let r = self.entries_of(ids);
        proof {
            assert forall|i: int, j: int| 0 <= i < j < r@.len() implies (#[trigger] r@[i]).data != (
            #[trigger] r@[j]).data by {
                assert(ids@[i] != ids@[j]);
            }
            assert forall|id: u64| #[trigger] self@.contains_key(id) && g(self@[id]) implies exists|i: int|
                0 <= i < r@.len() && r@[i].data == id by {
                let j = choose|j: int| 0 <= j < ids@.len() && ids@[j] == id;
                assert(r@[j].data == id);
            }
        }
        r
    }

    /// Every stored entry whose envelope shares a point with the envelope of `geom`.
    pub fn intersects(&self, geom: &GeomEx) -> (r: Vec<GeomExWithData>)
        requires
            self.wf(),
        ensures
            reports_exactly(r@, self@, |s: Shape| box_intersects(shape_envelope(s), shape_envelope(geom@))),
    {
        let env = geom.envelope();
        let (lo, hi) = (env.lower(), env.upper());
        let (lo_x, lo_y, hi_x, hi_y) = (lo.lon(), lo.lat(), hi.lon(), hi.lat());
        let ids = self.tree.ids_intersecting(lo_x, lo_y, hi_x, hi_y);
        let ghost f = |b: crate::geom_ex::BoxView| box_intersects(b, key_box(lo_x, lo_y, hi_x, hi_y));
        let ghost g = |s: Shape| box_intersects(shape_envelope(s), shape_envelope(geom@));
        proof {
            self.lemma_found_ids(ids@, f, g);
        }
        proof {
            self.lemma_ids_unique();
        }
        let r = self.entries_of(ids);
        proof {
            assert forall|i: int, j: int| 0 <= i < j < r@.len() implies (#[trigger] r@[i]).data != (
            #[trigger] r@[j]).data by {
                assert(ids@[i] != ids@[j]);
            }
            assert forall|id: u64| #[trigger] self@.contains_key(id) && g(self@[id]) implies exists|i: int|
                0 <= i < r@.len() && r@[i].data == id by {
                let j = choose|j: int| 0 <= j < ids@.len() && ids@[j] == id;
                assert(r@[j].data == id);
            }
        }
        r
    }
}

/// After upserting `(id, g)`, a lookup of `id` finds exactly `(id, g)`.
pub proof fn lemma_upsert_then_lookup(m: Map<u64, Shape>, id: u64, g: Shape, found: GeomLookup)
    requires
        lookup_matches(found, id, upsert_all(m, seq![(id, g)])),
    ensures
        found is Found,
        found->Found_0.data == id,
        found->Found_0.geom@ == g,
{
    let s = seq![(id, g)];
    assert(s.len() == 1 && s.last() == (id, g));
    assert(s.drop_last() =~= Seq::<(u64, Shape)>::empty());
    assert(upsert_all(m, s.drop_last()) == m);
}

/// Upserting `(id, g1)` and then `(id, g2)` leaves `g2` alone under `id`: a lookup
/// finds `(id, g2)`, and a point query at a point inside the envelope of `g1` but
/// outside that of `g2` does not report `id`.
pub proof fn lemma_upsert_replaces(
    m: Map<u64, Shape>,
    id: u64,
    g1: Shape,
    g2: Shape,
    found: GeomLookup,
    p: (int, int),
    at_p: Seq<GeomExWithData>,
)
    requires
        lookup_matches(found, id, upsert_all(upsert_all(m, seq![(id, g1)]), seq![(id, g2)])),
        reports_exactly(
            at_p,
            upsert_all(upsert_all(m, seq![(id, g1)]), seq![(id, g2)]),
            |s: Shape| box_contains(shape_envelope(s), p),
        ),
        box_contains(shape_envelope(g1), p),
        !box_contains(shape_envelope(g2), p),
    ensures
        found is Found,
        found->Found_0.data == id,
        found->Found_0.geom@ == g2,
        forall|i: int| 0 <= i < at_p.len() ==> (#[trigger] at_p[i]).data != id,
{
    let s2 = seq![(id, g2)];
    let m1 = upsert_all(m, seq![(id, g1)]);
    assert(s2.len() == 1 && s2.last() == (id, g2));
    assert(s2.drop_last() =~= Seq::<(u64, Shape)>::empty());
    assert(upsert_all(m1, s2.drop_last()) == m1);
    let m2 = upsert_all(m1, s2);
    assert(m2 == m1.insert(id, g2));
    assert forall|i: int| 0 <= i < at_p.len() implies (#[trigger] at_p[i]).data != id by {
        if at_p[i].data == id {
            assert(box_contains(shape_envelope(m2[id]), p));
        }
    }
}

/// Removing `id` leaves nothing under it: a lookup, or a second removal, reports
/// `id` missing, and the second removal changes nothing.
pub proof fn lemma_remove_then_lookup(m: Map<u64, Shape>, id: u64, after: GeomLookup)
    requires
        lookup_matches(after, id, remove_all(m, seq![id])),
    ensures
        after == GeomLookup::Missing(MissingGeom(id)),
        remove_all(remove_all(m, seq![id]), seq![id]) == remove_all(m, seq![id]),
{
    let s = seq![id];
    assert(s.len() == 1 && s.last() == id);
    assert(s.drop_last() =~= Seq::<u64>::empty());
    assert(remove_all(m, s.drop_last()) == m);
    let m1 = remove_all(m, s);
    assert(m1 == m.remove(id));
    assert(remove_all(m1, s.drop_last()) == m1);
    assert(remove_all(m1, s) =~= m1);
}

} // verus!
