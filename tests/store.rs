use soy_geo::geom_ex::{GeomEx, LineStringEx, PolygonEx, Pt, RectEx};
use soy_geo::rtree_ex::{GeomExWithData, GeomLookup, MissingGeom, RTreeInner};

fn pt(lon: i64, lat: i64) -> Pt {
    Pt::new(lon, lat).unwrap()
}

fn rect(a: (i64, i64), b: (i64, i64)) -> GeomEx {
    GeomEx::Rect(RectEx::from_corners(pt(a.0, a.1), pt(b.0, b.1)))
}

fn ids(found: &[GeomExWithData]) -> Vec<u64> {
    let mut v: Vec<u64> = found.iter().map(|e| e.data).collect();
    v.sort();
    v
}

fn found_point(r: &GeomLookup) -> Option<(u64, Pt)> {
    match r {
        GeomLookup::Found(GeomExWithData { data, geom: GeomEx::Pt(p) }) => Some((*data, *p)),
        _ => None,
    }
}

fn found_rect(r: &GeomLookup) -> Option<(u64, RectEx)> {
    match r {
        GeomLookup::Found(GeomExWithData { data, geom: GeomEx::Rect(b) }) => Some((*data, *b)),
        _ => None,
    }
}

fn missing(r: &GeomLookup) -> Option<u64> {
    match r {
        GeomLookup::Missing(MissingGeom(id)) => Some(*id),
        _ => None,
    }
}

#[test]
fn upsert_point_then_lookup() {
    let mut t = RTreeInner::new();
    let p = pt(-122_400_000, 37_800_000);
    let prev = t.upsert_many(vec![GeomExWithData::new(1, GeomEx::Pt(p))]);
    assert_eq!(prev.len(), 1);
    assert_eq!(missing(&prev[0]), Some(1));
    let got = t.lookup(&[1]);
    assert_eq!(got.len(), 1);
    assert_eq!(found_point(&got[0]), Some((1, p)));
    let none = t.lookup(&[2]);
    assert_eq!(missing(&none[0]), Some(2));
}

#[test]
fn upsert_replaces_rather_than_appends() {
    let mut t = RTreeInner::new();
    t.upsert_many(vec![GeomExWithData::new(7, rect((0, 0), (10, 10)))]);
    let prev = t.upsert_many(vec![GeomExWithData::new(7, rect((20, 20), (30, 30)))]);
    let (id, old) = found_rect(&prev[0]).unwrap();
    assert_eq!(id, 7);
    assert_eq!((old.lower(), old.upper()), (pt(0, 0), pt(10, 10)));
    let got = t.lookup(&[7]);
    assert_eq!(got.len(), 1);
    let (_, now) = found_rect(&got[0]).unwrap();
    assert_eq!((now.lower(), now.upper()), (pt(20, 20), pt(30, 30)));
    assert!(ids(&t.all_at_point(pt(5, 5))).is_empty());
    assert_eq!(ids(&t.all_at_point(pt(25, 25))), vec![7]);
}

#[test]
fn upsert_batch_reports_earlier_items_of_the_same_batch() {
    let mut t = RTreeInner::new();
    let prev = t.upsert_many(vec![
        GeomExWithData::new(3, GeomEx::Pt(pt(1, 1))),
        GeomExWithData::new(4, GeomEx::Pt(pt(2, 2))),
        GeomExWithData::new(3, GeomEx::Pt(pt(5, 5))),
    ]);
    assert_eq!(missing(&prev[0]), Some(3));
    assert_eq!(missing(&prev[1]), Some(4));
    assert_eq!(found_point(&prev[2]), Some((3, pt(1, 1))));
    let got = t.lookup(&[3, 4]);
    assert_eq!(found_point(&got[0]), Some((3, pt(5, 5))));
    assert_eq!(found_point(&got[1]), Some((4, pt(2, 2))));
    assert!(ids(&t.all_at_point(pt(1, 1))).is_empty());
}

#[test]
fn remove_then_lookup_is_missing_and_removal_is_idempotent() {
    let mut t = RTreeInner::new();
    t.upsert_many(vec![GeomExWithData::new(9, GeomEx::Pt(pt(4, 4)))]);
    let first = t.remove(&[9]);
    assert_eq!(found_point(&first[0]), Some((9, pt(4, 4))));
    assert_eq!(missing(&t.lookup(&[9])[0]), Some(9));
    let second = t.remove(&[9]);
    assert_eq!(missing(&second[0]), Some(9));
    assert!(ids(&t.all_at_point(pt(4, 4))).is_empty());
}

#[test]
fn remove_reports_each_id_in_order() {
    let mut t = RTreeInner::new();
    t.upsert_many(vec![GeomExWithData::new(1, GeomEx::Pt(pt(0, 0)))]);
    let r = t.remove(&[2, 1, 1]);
    assert_eq!(missing(&r[0]), Some(2));
    assert_eq!(found_point(&r[1]), Some((1, pt(0, 0))));
    assert_eq!(missing(&r[2]), Some(1));
}

#[test]
fn rectangle_at_point_scenario() {
    let mut t = RTreeInner::new();
    t.upsert_many(vec![GeomExWithData::new(5, rect((0, 0), (10_000_000, 10_000_000)))]);
    let hits = t.all_at_point(pt(5_000_000, 5_000_000));
    assert_eq!(hits.len(), 1);
    assert_eq!(hits[0].data, 5);
    match &hits[0].geom {
        GeomEx::Rect(r) => assert_eq!((r.lower(), r.upper()), (pt(0, 0), pt(10_000_000, 10_000_000))),
        _ => panic!("wrong kind"),
    }
    assert!(ids(&t.all_at_point(pt(20_000_000, 20_000_000))).is_empty());
}

#[test]
fn at_point_includes_edges_and_only_containing_envelopes() {
    let mut t = RTreeInner::new();
    t.upsert_many(vec![
        GeomExWithData::new(1, rect((0, 0), (10, 10))),
        GeomExWithData::new(2, rect((10, 10), (20, 20))),
        GeomExWithData::new(3, GeomEx::Pt(pt(10, 10))),
        GeomExWithData::new(4, rect((11, 11), (12, 12))),
    ]);
    assert_eq!(ids(&t.all_at_point(pt(10, 10))), vec![1, 2, 3]);
    let hits = t.all_at_point(pt(11, 11));
    assert_eq!(ids(&hits), vec![2, 4]);
}

#[test]
fn intersects_is_by_envelope() {
    let mut t = RTreeInner::new();
    let tri = PolygonEx::new(vec![vec![pt(0, 0), pt(10, 0), pt(0, 10), pt(0, 0)]]).unwrap();
    t.upsert_many(vec![
        GeomExWithData::new(1, GeomEx::Polygon(tri)),
        GeomExWithData::new(2, rect((50, 50), (60, 60))),
    ]);
    // The corner (9, 9) lies outside the triangle but inside its envelope.
    let q = rect((9, 9), (12, 12));
    assert_eq!(ids(&t.intersects(&q)), vec![1]);
    let line = LineStringEx::new(vec![pt(-5, 55), pt(100, 55)]).unwrap();
    assert_eq!(ids(&t.intersects(&GeomEx::LineString(line))), vec![2]);
    assert!(ids(&t.intersects(&rect((30, 30), (40, 40)))).is_empty());
}

#[test]
fn near_uses_the_squared_planar_surrogate() {
    let mut t = RTreeInner::new();
    t.upsert_many(vec![
        GeomExWithData::new(1, GeomEx::Pt(pt(3, 4))),
        GeomExWithData::new(2, GeomEx::Pt(pt(4, 4))),
        GeomExWithData::new(3, rect((6, -1), (9, 1))),
    ]);
    // The edge point lies 5 away from the origin, so the threshold is 25.
    let found = t.near(pt(0, 0), pt(5, 0));
    assert_eq!(ids(&found), vec![1]);
    let wider = t.near(pt(0, 0), pt(6, 0));
    assert_eq!(ids(&wider), vec![1, 2, 3]);
}

#[test]
fn queries_on_an_empty_store_find_nothing() {
    let t = RTreeInner::new();
    assert!(t.all_at_point(pt(0, 0)).is_empty());
    assert!(t.near(pt(0, 0), pt(1_000_000, 1_000_000)).is_empty());
    assert!(t.intersects(&rect((-1, -1), (1, 1))).is_empty());
    assert_eq!(missing(&t.lookup(&[0])[0]), Some(0));
}

#[test]
fn far_corners_of_the_range_are_stored_and_found() {
    let mut t = RTreeInner::new();
    t.upsert_many(vec![
        GeomExWithData::new(u64::MAX, GeomEx::Pt(pt(180_000_000, 90_000_000))),
        GeomExWithData::new(0, GeomEx::Pt(pt(-180_000_000, -90_000_000))),
    ]);
    let all = t.near(pt(-180_000_000, -90_000_000), pt(180_000_000, 90_000_000));
    assert_eq!(ids(&all), vec![0, u64::MAX]);
    assert_eq!(ids(&t.all_at_point(pt(180_000_000, 90_000_000))), vec![u64::MAX]);
}
