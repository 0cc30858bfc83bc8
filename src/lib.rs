//! An in-memory geospatial index. Geometries (points, rectangles, line strings and
//! polygons over WGS84 coordinates held as micro-degrees) are stored under caller-chosen
//! identifiers and found again by identifier, by a point inside their envelope, by
//! distance from a point, or by envelope overlap.
pub mod geom_ex;
pub mod rtree_ex;
pub mod spatial;
