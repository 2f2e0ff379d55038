//! Points, vectors, lines, segments and polygons, and how they meet.
pub mod constants;
pub mod intersection;
pub mod line;
pub mod line_segment;
pub mod point;
pub mod polygon;
pub mod polygon_laws;
pub mod vector;

pub use self::intersection::Intersection;
pub use self::intersection::LineLineIntersectionResult;
pub use self::intersection::LineSegmentLineSegmentIntersectionResult;
pub use self::intersection::PolygonPolygonIntersectionResult;
pub use self::line::Line;
pub use self::line::LineIntersection;
pub use self::line::LinePointRelation;
pub use self::line_segment::LineSegment;
pub use self::point::Point;
pub use self::polygon::Polygon;
pub use self::polygon::PolygonEdgeRelation;
pub use self::polygon::PolygonMergeResult;
pub use self::vector::Angle;
pub use self::vector::Vector;
