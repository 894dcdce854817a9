//! The document's data model: everything a scene can name.
//!
//! An `Object` is a closed set of variants: two path leaves (`Line`,
//! `Icon`), two arc leaves (`Ring`, `Circle`), and four containers
//! (`Sequence`, `Grid`, `Sun`, `Placement`). Every variant carries a list
//! of tags, so that queries can select objects by tag as well as by name.
//!
//! All geometry is fixed-point: coordinates in milli-units, angles in
//! milli-degrees, scale values in milli-units of the document convention
//! where 100 means "unchanged" (so 100_000 is the neutral scale).

use crate::structure::Query;
use vstd::prelude::*;

verus! {

/// Which entry of the session palette a leaf paints with
/// (the default is `Fill`).
#[derive(Clone, Copy, PartialEq, Eq, Structural, Debug)]
pub enum Color {
    /// Paint with the palette's background color.
    Background,
    /// Paint with the palette's fill color.
    Fill,
}

impl Color {
    /// The color a document gets when it names none.
    pub fn default() -> (c: Color)
        ensures
            c == Color::Fill,
    {
        Color::Fill
    }
}

/// A point in milli-units.
#[derive(Clone, Copy, PartialEq, Eq, Structural, Debug)]
pub struct Point {
    pub x: i64,
    pub y: i64,
}

impl Default for Point {
    /// The origin.
    fn default() -> (p: Point)
        ensures
            p == (Point { x: 0, y: 0 }),
    {
        Point { x: 0, y: 0 }
    }
}

/// One vertex of a path. Without control points the path runs straight
/// to (x, y); with at least one, it runs there as a cubic curve, a
/// missing control defaulting to the vertex's own endpoint.
#[derive(Clone, Copy, PartialEq, Eq, Structural, Debug)]
pub struct IconPoint {
    /// x coordinate of the endpoint, milli-units.
    pub x: i64,
    /// y coordinate of the endpoint, milli-units.
    pub y: i64,
    /// Control point on the source side of the segment.
    pub sa: Option<Point>,
    /// Control point on the target side (the point given by x and y).
    pub sb: Option<Point>,
}

/// All object variants a document can define.
pub enum Object {
    /// A container that draws its children in order under one transform.
    Sequence(Sequence),
    /// A container that re-queries an object once per grid cell.
    Grid(Grid),
    /// A container that re-queries an object once per radial segment.
    Sun(Sun),
    /// A container that queries a single object and places it.
    Placement(Placement),
    /// An unfilled ring.
    Ring(Ring),
    /// A filled circle.
    Circle(Circle),
    /// A closed, filled path.
    Icon(Icon),
    /// A stroked path.
    Line(Line),
}

impl Object {
    /// The tag list of any variant.
    pub fn get_tags(&self) -> (tags: &Vec<String>)
        ensures
            tags@ == self.spec_tags(),
    {
        match self {
            Object::Sequence(element) => &element.tags,
            Object::Grid(element) => &element.tags,
            Object::Sun(element) => &element.tags,
            Object::Placement(element) => &element.tags,
            Object::Ring(element) => &element.tags,
            Object::Circle(element) => &element.tags,
            Object::Icon(element) => &element.tags,
            Object::Line(element) => &element.tags,
        }
    }

    /// The tag list of any variant, as a sequence.
    pub open spec fn spec_tags(self) -> Seq<String> {
        match self {
            Object::Sequence(element) => element.tags@,
            Object::Grid(element) => element.tags@,
            Object::Sun(element) => element.tags@,
            Object::Placement(element) => element.tags@,
            Object::Ring(element) => element.tags@,
            Object::Circle(element) => element.tags@,
            Object::Icon(element) => element.tags@,
            Object::Line(element) => element.tags@,
        }
    }

    /// True of the variants that resolve queries or group children;
    /// false of the four leaves.
    pub open spec fn is_container(self) -> bool {
        self is Sequence || self is Grid || self is Sun || self is Placement
    }
}

/// A container that draws multiple objects in a row, under a shared
/// translation, rotation and scale.
pub struct Sequence {
    /// The children, drawn in order (painter's algorithm: later children
    /// draw over earlier ones).
    pub objects: Vec<Object>,
    /// Rotation in milli-degrees (default 0).
    pub angle: i64,
    /// Scale in milli-units, 100_000 meaning unchanged.
    pub scale: i64,
    /// x coordinate of the center, milli-units.
    pub x: i64,
    /// y coordinate of the center, milli-units.
    pub y: i64,
    /// Tags this object can be queried by.
    pub tags: Vec<String>,
}

/// A container that places a queried object once per cell of a
/// rows-by-columns grid, the grid's bounding box centered on the
/// container's origin.
pub struct Grid {
    /// Number of rows (a value below 1 yields no cells).
    pub rows: i32,
    /// Number of columns (a value below 1 yields no cells).
    pub columns: i32,
    /// Horizontal distance between cell centers, milli-units.
    pub width: i64,
    /// Vertical distance between cell centers, milli-units.
    pub height: i64,
    /// The query resolved once per cell.
    pub query: Query,
    /// Rotation in milli-degrees.
    pub angle: i64,
    /// Scale applied inside each cell, milli-units, 100_000 = unchanged.
    pub scale: i64,
    /// x coordinate of the center, milli-units.
    pub x: i64,
    /// y coordinate of the center, milli-units.
    pub y: i64,
    /// Tags this object can be queried by.
    pub tags: Vec<String>,
}

/// A container that places a queried object once per segment of a
/// circle: segment k is rotated k/segments of a full turn, pushed out by
/// `radius`, turned a further quarter turn, then scaled.
pub struct Sun {
    /// The query resolved once per segment.
    pub query: Query,
    /// Distance from the center to each placed object, milli-units.
    pub radius: i64,
    /// Number of segments (a value below 1 yields none).
    pub segments: i32,
    /// Rotation in milli-degrees.
    pub angle: i64,
    /// Scale applied inside each segment, milli-units, 100_000 = unchanged.
    pub scale: i64,
    /// x coordinate of the center, milli-units.
    pub x: i64,
    /// y coordinate of the center, milli-units.
    pub y: i64,
    /// Tags this object can be queried by.
    pub tags: Vec<String>,
}

/// A container that resolves its query exactly once and places the
/// result under its transform.
pub struct Placement {
    /// The query resolved once.
    pub query: Query,
    /// Rotation in milli-degrees.
    pub angle: i64,
    /// Scale in milli-units, 100_000 meaning unchanged.
    pub scale: i64,
    /// x coordinate of the center, milli-units.
    pub x: i64,
    /// y coordinate of the center, milli-units.
    pub y: i64,
    /// Tags this object can be queried by.
    pub tags: Vec<String>,
}

/// An unfilled ring, stroked.
pub struct Ring {
    /// Radius in milli-units.
    pub radius: i64,
    /// Which palette color to stroke with.
    pub color: Color,
    /// Tags this object can be queried by.
    pub tags: Vec<String>,
}

/// A filled circle.
pub struct Circle {
    /// Radius in milli-units.
    pub radius: i64,
    /// Which palette color to fill with.
    pub color: Color,
    /// Tags this object can be queried by.
    pub tags: Vec<String>,
}

/// A closed path, filled.
pub struct Icon {
    /// The vertices of the path, first vertex first.
    pub path: Vec<IconPoint>,
    /// Which palette color to fill with.
    pub color: Color,
    /// Tags this object can be queried by.
    pub tags: Vec<String>,
}

/// An open path, stroked.
pub struct Line {
    /// The vertices of the path, first vertex first.
    pub path: Vec<IconPoint>,
    /// Which palette color to stroke with.
    pub color: Color,
    /// Tags this object can be queried by.
    pub tags: Vec<String>,
}

} // verus!
