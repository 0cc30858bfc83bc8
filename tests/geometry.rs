use soy_geo::geom_ex::{GeomEx, LineStringEx, PolygonEx, Pt, RectEx, ValidationError};

fn pt(lon: i64, lat: i64) -> Pt {
    Pt::new(lon, lat).unwrap()
}

#[test]
fn longitude_above_range_is_rejected() {
    assert_eq!(Pt::new(181_000_000, 0), Err(ValidationError::LongitudeAboveRange));
}

#[test]
fn longitude_below_range_is_rejected() {
    assert_eq!(Pt::new(-180_000_001, 0), Err(ValidationError::LongitudeBelowRange));
}

#[test]
fn latitude_below_range_is_rejected() {
    assert_eq!(Pt::new(0, -91_000_000), Err(ValidationError::LatitudeBelowRange));
}

#[test]
fn latitude_above_range_is_rejected() {
    assert_eq!(Pt::new(0, 90_000_001), Err(ValidationError::LatitudeAboveRange));
}

#[test]
fn range_bounds_are_inclusive() {
    let p = Pt::new(180_000_000, 90_000_000).unwrap();
    assert_eq!((p.lon(), p.lat()), (180_000_000, 90_000_000));
    let q = Pt::new(-180_000_000, -90_000_000).unwrap();
    assert_eq!((q.lon(), q.lat()), (-180_000_000, -90_000_000));
}

#[test]
fn longitude_is_checked_before_latitude() {
    assert_eq!(Pt::new(200_000_000, 100_000_000), Err(ValidationError::LongitudeAboveRange));
}

#[test]
fn rectangle_corners_are_normalised() {
    let r = RectEx::from_corners(pt(10, -5), pt(-3, 7));
    assert_eq!(r.lower(), pt(-3, -5));
    assert_eq!(r.upper(), pt(10, 7));
}

#[test]
fn empty_line_string_is_rejected() {
    assert!(matches!(LineStringEx::new(vec![]), Err(ValidationError::EmptyLineString)));
}

#[test]
fn polygon_without_rings_is_rejected() {
    assert!(matches!(PolygonEx::new(vec![]), Err(ValidationError::EmptyPolygon)));
}

#[test]
fn polygon_with_empty_exterior_is_rejected() {
    assert!(matches!(PolygonEx::new(vec![vec![], vec![pt(1, 1)]]), Err(ValidationError::EmptyExterior)));
}

#[test]
fn polygon_keeps_empty_interior_rings() {
    let poly = PolygonEx::new(vec![vec![pt(0, 0), pt(4, 0), pt(4, 4)], vec![]]).unwrap();
    assert_eq!(poly.exterior().len(), 4);
    assert_eq!(poly.interiors().len(), 1);
    assert!(poly.interiors()[0].is_empty());
}

#[test]
fn point_envelope_is_the_point() {
    let g = GeomEx::Pt(pt(5, -6));
    let env = g.envelope();
    assert_eq!(env.lower(), pt(5, -6));
    assert_eq!(env.upper(), pt(5, -6));
}

#[test]
fn line_string_envelope_bounds_all_vertices() {
    let ls = LineStringEx::new(vec![pt(3, 9), pt(-2, 4), pt(7, -1), pt(0, 0)]).unwrap();
    let env = GeomEx::LineString(ls).envelope();
    assert_eq!(env.lower(), pt(-2, -1));
    assert_eq!(env.upper(), pt(7, 9));
}

#[test]
fn polygon_envelope_ignores_interior_rings() {
    let poly = PolygonEx::new(vec![
        vec![pt(0, 0), pt(10, 0), pt(10, 10), pt(0, 10), pt(0, 0)],
        vec![pt(-50, -50), pt(60, 60)],
    ])
    .unwrap();
    let env = GeomEx::Polygon(poly).envelope();
    assert_eq!(env.lower(), pt(0, 0));
    assert_eq!(env.upper(), pt(10, 10));
}

#[test]
fn distance_to_point_is_squared_planar() {
    let g = GeomEx::Pt(pt(0, 0));
    assert_eq!(g.distance_2(&pt(3, 4)), 25);
    assert_eq!(pt(0, 0).distance_2(&pt(-3, -4)), 25);
}

#[test]
fn distance_to_rectangle_uses_nearest_edge() {
    let g = GeomEx::Rect(RectEx::from_corners(pt(0, 0), pt(10, 10)));
    assert_eq!(g.distance_2(&pt(5, 5)), 0);
    assert_eq!(g.distance_2(&pt(13, 14)), 9 + 16);
    assert_eq!(g.distance_2(&pt(-2, 5)), 4);
}

#[test]
fn distance_across_the_whole_range_does_not_overflow() {
    let a = pt(-180_000_000, -90_000_000);
    let b = pt(180_000_000, 90_000_000);
    assert_eq!(a.distance_2(&b), 360_000_000i64 * 360_000_000 + 180_000_000i64 * 180_000_000);
}

#[test]
fn duplicate_keeps_the_shape() {
    let poly = PolygonEx::new(vec![vec![pt(1, 2), pt(3, 4)], vec![pt(2, 3)]]).unwrap();
    let copy = GeomEx::Polygon(poly).duplicate();
    match copy {
        GeomEx::Polygon(p) => {
            assert_eq!(p.exterior(), &vec![pt(1, 2), pt(3, 4), pt(1, 2)]);
            assert_eq!(p.interiors(), &vec![vec![pt(2, 3)]]);
        }
        _ => panic!("wrong kind"),
    }
}

#[test]
fn polygon_rings_are_closed() {
    let poly = PolygonEx::new(vec![
        vec![pt(0, 0), pt(1, 1), pt(1, 0)],
        vec![pt(5, 5), pt(6, 6), pt(5, 5)],
        vec![pt(7, 7), pt(8, 8)],
        vec![pt(9, 9)],
    ])
    .unwrap();
    assert_eq!(poly.exterior(), &vec![pt(0, 0), pt(1, 1), pt(1, 0), pt(0, 0)]);
    assert_eq!(
        poly.interiors(),
        &vec![vec![pt(5, 5), pt(6, 6), pt(5, 5)], vec![pt(7, 7), pt(8, 8), pt(7, 7)], vec![pt(9, 9)]]
    );
}
