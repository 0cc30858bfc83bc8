//! Geometries over WGS84 coordinates held as whole micro-degrees, with their
//! axis-aligned envelopes and squared planar distances.
use vstd::prelude::*;

verus! {

/// Largest magnitude of a longitude, in micro-degrees.
pub const LON_LIMIT: i64 = 180_000_000;

/// Largest magnitude of a latitude, in micro-degrees.
pub const LAT_LIMIT: i64 = 90_000_000;

/// A coordinate as (longitude, latitude) in micro-degrees.
pub type Coord = (int, int);

/// An axis-aligned box as (lower corner, upper corner).
pub type BoxView = (Coord, Coord);

pub open spec fn in_range(c: Coord) -> bool {
    &&& -LON_LIMIT <= c.0 <= LON_LIMIT
    &&& -LAT_LIMIT <= c.1 <= LAT_LIMIT
}

/// Both corners are valid coordinates and the lower one is below and left of the upper one.
pub open spec fn box_valid(b: BoxView) -> bool {
    &&& in_range(b.0)
    &&& in_range(b.1)
    &&& b.0.0 <= b.1.0
    &&& b.0.1 <= b.1.1
}

pub open spec fn min_int(a: int, b: int) -> int {
    if a <= b { a } else { b }
}

pub open spec fn max_int(a: int, b: int) -> int {
    if a >= b { a } else { b }
}

/// The smallest box holding both coordinates.
pub open spec fn box_of_corners(a: Coord, b: Coord) -> BoxView {
    ((min_int(a.0, b.0), min_int(a.1, b.1)), (max_int(a.0, b.0), max_int(a.1, b.1)))
}

/// The box holds the coordinate; its edges count as inside.
pub open spec fn box_contains(b: BoxView, p: Coord) -> bool {
    b.0.0 <= p.0 <= b.1.0 && b.0.1 <= p.1 <= b.1.1
}

/// The two boxes share at least one coordinate.
pub open spec fn box_intersects(a: BoxView, b: BoxView) -> bool {
    a.0.0 <= b.1.0 && a.0.1 <= b.1.1 && a.1.0 >= b.0.0 && a.1.1 >= b.0.1
}

/// How far `v` lies outside the interval `[lo, hi]`.
pub open spec fn gap(v: int, lo: int, hi: int) -> int {
    if v < lo { lo - v } else if v > hi { v - hi } else { 0 }
}

/// Squared planar distance from a coordinate to the nearest coordinate of a box.
pub open spec fn box_dist2(b: BoxView, p: Coord) -> int {
    gap(p.0, b.0.0, b.1.0) * gap(p.0, b.0.0, b.1.0) + gap(p.1, b.0.1, b.1.1) * gap(p.1, b.0.1, b.1.1)
}

/// Squared planar distance between two coordinates.
pub open spec fn point_dist2(a: Coord, b: Coord) -> int {
    (a.0 - b.0) * (a.0 - b.0) + (a.1 - b.1) * (a.1 - b.1)
}

/// Why a geometry could not be built.
#[derive(Clone, Copy, Debug, PartialEq, Eq, Structural)]
pub enum ValidationError {
    LongitudeAboveRange,
    LongitudeBelowRange,
    LatitudeAboveRange,
    LatitudeBelowRange,
    EmptyLineString,
    EmptyPolygon,
    EmptyExterior,
}

/// A valid coordinate.
#[derive(Clone, Copy, Debug, PartialEq, Eq, Structural)]
pub struct Pt {
    lon: i64,
    lat: i64,
}

impl View for Pt {
    type V = Coord;

    closed spec fn view(&self) -> Coord {
        (self.lon as int, self.lat as int)
    }
}

impl Pt {
    #[verifier::type_invariant]
    spec fn inv(self) -> bool {
        in_range((self.lon as int, self.lat as int))
    }

    /// Builds a coordinate from micro-degrees, rejecting one outside the WGS84 ranges.
    /// Longitude is checked before latitude.
    pub fn new(lon: i64, lat: i64) -> (r: Result<Pt, ValidationError>)
        ensures
            lon > LON_LIMIT ==> r == Err::<Pt, ValidationError>(ValidationError::LongitudeAboveRange),
            lon < -LON_LIMIT ==> r == Err::<Pt, ValidationError>(ValidationError::LongitudeBelowRange),
            -LON_LIMIT <= lon <= LON_LIMIT && lat > LAT_LIMIT
                ==> r == Err::<Pt, ValidationError>(ValidationError::LatitudeAboveRange),
            -LON_LIMIT <= lon <= LON_LIMIT && lat < -LAT_LIMIT
                ==> r == Err::<Pt, ValidationError>(ValidationError::LatitudeBelowRange),
            in_range((lon as int, lat as int)) ==> r is Ok && r->Ok_0@ == (lon as int, lat as int),
    {
        if lon > LON_LIMIT {
            return Err(ValidationError::LongitudeAboveRange);
        }
        if lon < -LON_LIMIT {
            return Err(ValidationError::LongitudeBelowRange);
        }
        if lat > LAT_LIMIT {
            return Err(ValidationError::LatitudeAboveRange);
        }
        if lat < -LAT_LIMIT {
            return Err(ValidationError::LatitudeBelowRange);
        }
        Ok(Pt { lon, lat })
    }

    pub fn lon(&self) -> (r: i64)
        ensures
            r == self@.0,
            in_range(self@),
    {
        proof {
            use_type_invariant(self);
        }
        self.lon
    }

    pub fn lat(&self) -> (r: i64)
        ensures
            r == self@.1,
            in_range(self@),
    {
        proof {
            use_type_invariant(self);
        }
        self.lat
    }

    /// Squared planar distance to another coordinate.
    pub fn distance_2(&self, other: &Pt) -> (r: i64)
        ensures
            r == point_dist2(self@, other@),
    {
        proof {
            use_type_invariant(self);
            use_type_invariant(other);
        }
        let dx: i64 = self.lon - other.lon;
        let dy: i64 = self.lat - other.lat;
        assert(0 <= dx * dx <= 400_000_000 * 400_000_000) by (nonlinear_arith)
            requires -400_000_000 <= dx <= 400_000_000;
        assert(0 <= dy * dy <= 400_000_000 * 400_000_000) by (nonlinear_arith)
            requires -400_000_000 <= dy <= 400_000_000;
        dx * dx + dy * dy
    }
}

/// An axis-aligned rectangle, kept as its lower and upper corners.
#[derive(Clone, Copy, Debug, PartialEq, Eq, Structural)]
pub struct RectEx {
    lower: Pt,
    upper: Pt,
}

impl View for RectEx {
    type V = BoxView;

    closed spec fn view(&self) -> BoxView {
        (self.lower@, self.upper@)
    }
}

impl RectEx {
    #[verifier::type_invariant]
    spec fn inv(self) -> bool {
        self.lower@.0 <= self.upper@.0 && self.lower@.1 <= self.upper@.1
    }

    /// The rectangle spanned by two opposite corners given in any order.
    pub fn from_corners(a: Pt, b: Pt) -> (r: RectEx)
        ensures
            r@ == box_of_corners(a@, b@),
    {
        let (ax, ay, bx, by) = (a.lon(), a.lat(), b.lon(), b.lat());
        let lo_x: i64 = if ax <= bx { ax } else { bx };
        let lo_y: i64 = if ay <= by { ay } else { by };
        let hi_x: i64 = if ax >= bx { ax } else { bx };
        let hi_y: i64 = if ay >= by { ay } else { by };
        RectEx { lower: Pt { lon: lo_x, lat: lo_y }, upper: Pt { lon: hi_x, lat: hi_y } }
    }

    pub fn lower(&self) -> (r: Pt)
        ensures
            r@ == self@.0,
            box_valid(self@),
    {
        proof {
            use_type_invariant(self);
        }
        let _ = self.lower.lon();
        let _ = self.upper.lon();
        self.lower
    }

    pub fn upper(&self) -> (r: Pt)
        ensures
            r@ == self@.1,
            box_valid(self@),
    {
        let _ = self.lower();
        self.upper
    }

    /// Squared planar distance from `p` to the nearest coordinate of the rectangle;
    /// zero where the rectangle holds `p`.
    pub fn distance_2(&self, p: &Pt) -> (r: i64)
        ensures
            r == box_dist2(self@, p@),
    {
        let (lo, hi) = (self.lower(), self.upper());
        let (x, y) = (p.lon(), p.lat());
        let dx: i64 = if x < lo.lon() {
            lo.lon() - x
        } else if x > hi.lon() {
            x - hi.lon()
        } else {
            0
        };
        let dy: i64 = if y < lo.lat() {
            lo.lat() - y
        } else if y > hi.lat() {
            y - hi.lat()
        } else {
            0
        };
        assert(0 <= dx * dx <= 400_000_000 * 400_000_000) by (nonlinear_arith)
            requires 0 <= dx <= 400_000_000;
        assert(0 <= dy * dy <= 400_000_000 * 400_000_000) by (nonlinear_arith)
            requires 0 <= dy <= 400_000_000;
        dx * dx + dy * dy
    }
}

/// The bounding box of a non-empty sequence of coordinates.
pub open spec fn seq_bounds(s: Seq<Pt>) -> BoxView
    decreases s.len(),
{
    if s.len() <= 1 {
        (s[0]@, s[0]@)
    } else {
        let b = seq_bounds(s.drop_last());
        let p = s.last()@;
        ((min_int(b.0.0, p.0), min_int(b.0.1, p.1)), (max_int(b.1.0, p.0), max_int(b.1.1, p.1)))
    }
}

/// The bounding rectangle of a non-empty run of coordinates.
fn bounds_of(coords: &Vec<Pt>) -> (r: RectEx)
    requires
        coords@.len() > 0,
    ensures
        r@ == seq_bounds(coords@),
{
    let first = coords[0];
    let (mut lo_x, mut lo_y, mut hi_x, mut hi_y) = (first.lon(), first.lat(), first.lon(), first.lat());
    let mut i: usize = 1;
    assert(coords@.subrange(0, 1).drop_last().len() == 0);
    while i < coords.len()
        invariant
            1 <= i <= coords@.len(),
            seq_bounds(coords@.subrange(0, i as int)) == ((lo_x as int, lo_y as int), (hi_x as int, hi_y as int)),
            in_range((lo_x as int, lo_y as int)),
            in_range((hi_x as int, hi_y as int)),
            lo_x <= hi_x && lo_y <= hi_y,
        decreases coords@.len() - i,
    {
        let p = coords[i];
        let (x, y) = (p.lon(), p.lat());
        assert(coords@.subrange(0, i as int + 1).drop_last() == coords@.subrange(0, i as int));
        if x < lo_x {
            lo_x = x;
        }
        if y < lo_y {
            lo_y = y;
        }
        if x > hi_x {
            hi_x = x;
        }
        if y > hi_y {
            hi_y = y;
        }
        i = i + 1;
    }
    assert(coords@.subrange(0, coords@.len() as int) == coords@);
    RectEx { lower: Pt { lon: lo_x, lat: lo_y }, upper: Pt { lon: hi_x, lat: hi_y } }
}

/// Copies a run of coordinates.
fn copy_coords(coords: &Vec<Pt>) -> (r: Vec<Pt>)
    ensures
        r@ == coords@,
{
    let mut out: Vec<Pt> = Vec::with_capacity(coords.len());
    let mut i: usize = 0;
    while i < coords.len()
        invariant
            i <= coords@.len(),
            out@ == coords@.subrange(0, i as int),
        decreases coords@.len() - i,
    {
        out.push(coords[i]);
        i = i + 1;
    }
    assert(coords@.subrange(0, coords@.len() as int) == coords@);
    out
}

/// A ring closed by repeating its first coordinate at the end, unless it already ends
/// where it starts; an empty ring stays empty.
pub open spec fn close_ring(s: Seq<Pt>) -> Seq<Pt> {
    if s.len() > 0 && s.last() != s[0] {
        s.push(s[0])
    } else {
        s
    }
}

/// A closed copy of a ring.
fn closed_ring(coords: &Vec<Pt>) -> (r: Vec<Pt>)
    ensures
        r@ == close_ring(coords@),
{
    let mut out = copy_coords(coords);
    let n = coords.len();
    if n > 0 && coords[n - 1] != coords[0] {
        out.push(coords[0]);
    }
    out
}

/// A non-empty run of coordinates.
#[derive(Debug)]
pub struct LineStringEx {
    coords: Vec<Pt>,
}

impl View for LineStringEx {
    type V = Seq<Pt>;

    closed spec fn view(&self) -> Seq<Pt> {
        self.coords@
    }
}

impl LineStringEx {
    #[verifier::type_invariant]
    spec fn inv(self) -> bool {
        self.coords@.len() > 0
    }

    /// Builds a line string; an empty run is rejected.
    pub fn new(coords: Vec<Pt>) -> (r: Result<LineStringEx, ValidationError>)
        ensures
            coords@.len() == 0 <==> r == Err::<LineStringEx, ValidationError>(ValidationError::EmptyLineString),
            coords@.len() > 0 ==> r is Ok && r->Ok_0@ == coords@,
    {
        if coords.len() == 0 {
            return Err(ValidationError::EmptyLineString);
        }
        Ok(LineStringEx { coords })
    }

    pub fn coords(&self) -> (r: &Vec<Pt>)
        ensures
            r@ == self@,
            r@.len() > 0,
    {
        proof {
            use_type_invariant(self);
        }
        &self.coords
    }
}

/// A polygon: a non-empty exterior ring and any number of interior rings, each ring
/// closed.
#[derive(Debug)]
pub struct PolygonEx {
    exterior: Vec<Pt>,
    interiors: Vec<Vec<Pt>>,
}

impl View for PolygonEx {
    type V = (Seq<Pt>, Seq<Seq<Pt>>);

    closed spec fn view(&self) -> (Seq<Pt>, Seq<Seq<Pt>>) {
        (self.exterior@, self.interiors@.map_values(|v: Vec<Pt>| v@))
    }
}

impl PolygonEx {
    #[verifier::type_invariant]
    spec fn inv(self) -> bool {
        self.exterior@.len() > 0
    }

    /// Builds a polygon from its rings, the exterior first, closing each ring that does
    /// not end where it starts. No rings at all, or an empty exterior, is rejected;
    /// interior rings may be empty.
    pub fn new(rings: Vec<Vec<Pt>>) -> (r: Result<PolygonEx, ValidationError>)
        ensures
            rings@.len() == 0 <==> r == Err::<PolygonEx, ValidationError>(ValidationError::EmptyPolygon),
            rings@.len() > 0 && rings@[0]@.len() == 0
                <==> r == Err::<PolygonEx, ValidationError>(ValidationError::EmptyExterior),
            rings@.len() > 0 && rings@[0]@.len() > 0 ==> r is Ok && r->Ok_0@ == (
                close_ring(rings@[0]@),
                rings@.map_values(|v: Vec<Pt>| close_ring(v@)).subrange(1, rings@.len() as int),
            ),
    {
        if rings.len() == 0 {
            return Err(ValidationError::EmptyPolygon);
        }
        if rings[0].len() == 0 {
            return Err(ValidationError::EmptyExterior);
        }
        let exterior = closed_ring(&rings[0]);
        let mut interiors: Vec<Vec<Pt>> = Vec::new();
        let mut i: usize = 1;
        while i < rings.len()
            invariant
                1 <= i <= rings@.len(),
                interiors@.len() == i - 1,
                forall|j: int| 0 <= j < i - 1 ==> #[trigger] interiors@[j]@ == close_ring(rings@[j + 1]@),
            decreases rings@.len() - i,
        {
            let ring = closed_ring(&rings[i]);
            interiors.push(ring);
            i = i + 1;
        }
        assert(interiors@.map_values(|v: Vec<Pt>| v@) =~= rings@.map_values(|v: Vec<Pt>| close_ring(v@)).subrange(
            1,
            rings@.len() as int,
        ));
        Ok(PolygonEx { exterior, interiors })
    }

    pub fn exterior(&self) -> (r: &Vec<Pt>)
        ensures
            r@ == self@.0,
            r@.len() > 0,
    {
        proof {
            use_type_invariant(self);
        }
        &self.exterior
    }

    pub fn interiors(&self) -> (r: &Vec<Vec<Pt>>)
        ensures
            r@.map_values(|v: Vec<Pt>| v@) == self@.1,
    {
        &self.interiors
    }

    fn duplicate(&self) -> (r: PolygonEx)
        ensures
            r@ == self@,
    {
        let exterior = copy_coords(self.exterior());
        let mut interiors: Vec<Vec<Pt>> = Vec::new();
        let mut i: usize = 0;
        while i < self.interiors.len()
            invariant
                i <= self.interiors@.len(),
                interiors@.len() == i,
                forall|j: int| 0 <= j < i ==> #[trigger] interiors@[j]@ == self.interiors@[j]@,
            decreases self.interiors@.len() - i,
        {
            let ring = copy_coords(&self.interiors[i]);
            interiors.push(ring);
            i = i + 1;
        }
        assert(interiors@.map_values(|v: Vec<Pt>| v@) =~= self.interiors@.map_values(|v: Vec<Pt>| v@));
        PolygonEx { exterior, interiors }
    }
}

/// What a geometry is, as plain values.
pub ghost enum Shape {
    Point(Coord),
    Rect(BoxView),
    Line(Seq<Pt>),
    Polygon(Seq<Pt>, Seq<Seq<Pt>>),
}

/// The envelope of a geometry: the point itself, the rectangle itself, or the bounding
/// box of the vertices; a polygon's interior rings do not count.
pub open spec fn shape_envelope(s: Shape) -> BoxView {
    match s {
        Shape::Point(c) => (c, c),
        Shape::Rect(b) => b,
        Shape::Line(cs) => seq_bounds(cs),
        Shape::Polygon(ext, _) => seq_bounds(ext),
    }
}

/// One of the four kinds of geometry.
#[derive(Debug)]
pub enum GeomEx {
    Pt(Pt),
    Rect(RectEx),
    LineString(LineStringEx),
    Polygon(PolygonEx),
}

impl View for GeomEx {
    type V = Shape;

    open spec fn view(&self) -> Shape {
        match self {
            GeomEx::Pt(p) => Shape::Point(p@),
            GeomEx::Rect(r) => Shape::Rect(r@),
            GeomEx::LineString(l) => Shape::Line(l@),
            GeomEx::Polygon(p) => Shape::Polygon(p@.0, p@.1),
        }
    }
}

impl GeomEx {
    /// The axis-aligned bounding rectangle of the geometry.
    pub fn envelope(&self) -> (r: RectEx)
        ensures
            r@ == shape_envelope(self@),
    {
        match self {
            GeomEx::Pt(p) => RectEx::from_corners(*p, *p),
            GeomEx::Rect(r) => *r,
            GeomEx::LineString(l) => bounds_of(l.coords()),
            GeomEx::Polygon(p) => bounds_of(p.exterior()),
        }
    }

    /// Squared planar distance from `pt` to the geometry's envelope.
    pub fn distance_2(&self, pt: &Pt) -> (r: i64)
        ensures
            r == box_dist2(shape_envelope(self@), pt@),
            r >= 0,
    {
        let env = self.envelope();
        env.distance_2(pt)
    }

    /// A copy of the geometry with the same shape.
    pub fn duplicate(&self) -> (r: GeomEx)
        ensures
            r@ == self@,
    {
        match self {
            GeomEx::Pt(p) => GeomEx::Pt(*p),
            GeomEx::Rect(r) => GeomEx::Rect(*r),
            GeomEx::LineString(l) => GeomEx::LineString(LineStringEx { coords: copy_coords(l.coords()) }),
            GeomEx::Polygon(p) => GeomEx::Polygon(p.duplicate()),
        }
    }
}

} // verus!
