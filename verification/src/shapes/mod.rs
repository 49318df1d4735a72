//! Shape descriptors: the declarative inputs of the geometry builders.
//!
//! Coordinates, sizes and stroke widths are exact rationals in pixel
//! units; arc angles are in degrees.

pub mod shaperenderable;

use crate::rat::Rat;
use vstd::prelude::*;

verus! {

pub use shaperenderable::ShapeRenderable;
pub use shaperenderable::ShapeStyle;

/// A single point at the anchor position.
#[derive(Clone)]
pub struct Point;

impl Point {
    pub fn new() -> (p: Point) {
        Point {  }
    }
}

/// A list of points; the first becomes the anchor, the rest are stored
/// relative to it.
#[derive(Clone)]
pub struct MultiPoint {
    pub points: Vec<(Rat, Rat)>,
}

impl MultiPoint {
    pub fn new(points: Vec<(Rat, Rat)>) -> (s: MultiPoint)
        ensures
            s.points == points,
    {
        MultiPoint { points }
    }
}

/// A line segment from the anchor to `(x2, y2)`.
#[derive(Clone, Copy)]
pub struct Line {
    pub x2: Rat,
    pub y2: Rat,
}

impl Line {
    pub fn new(x2: Rat, y2: Rat) -> (s: Line)
        ensures
            s.x2 == x2,
            s.y2 == y2,
    {
        Line { x2, y2 }
    }
}

/// A stroked multi-segment path.
#[derive(Clone)]
pub struct Polyline {
    pub points: Vec<(Rat, Rat)>,
}

impl Polyline {
    pub fn new(points: Vec<(Rat, Rat)>) -> (s: Polyline)
        ensures
            s.points == points,
    {
        Polyline { points }
    }
}

/// A filled triangle.
#[derive(Clone, Copy)]
pub struct Triangle {
    pub vertices: [(Rat, Rat); 3],
}

impl Triangle {
    pub fn new(vertices: [(Rat, Rat); 3]) -> (s: Triangle)
        ensures
            s.vertices == vertices,
    {
        Triangle { vertices }
    }
}

/// An axis-aligned filled rectangle.
#[derive(Clone, Copy)]
pub struct Rectangle {
    pub width: Rat,
    pub height: Rat,
}

impl Rectangle {
    pub fn new(width: Rat, height: Rat) -> (s: Rectangle)
        ensures
            s.width == width,
            s.height == height,
    {
        Rectangle { width, height }
    }
}

/// A filled rectangle with quarter-circle corners.
#[derive(Clone, Copy)]
pub struct RoundedRectangle {
    pub width: Rat,
    pub height: Rat,
    pub radius: Rat,
}

impl RoundedRectangle {
    pub fn new(width: Rat, height: Rat, radius: Rat) -> (s: RoundedRectangle)
        ensures
            s.width == width,
            s.height == height,
            s.radius == radius,
    {
        RoundedRectangle { width, height, radius }
    }
}

/// A filled polygon, fan-triangulated from its first point; correct for
/// convex and star-shaped inputs.
#[derive(Clone)]
pub struct Polygon {
    pub points: Vec<(Rat, Rat)>,
}

impl Polygon {
    pub fn new(points: Vec<(Rat, Rat)>) -> (s: Polygon)
        ensures
            s.points == points,
    {
        Polygon { points }
    }
}

/// A filled circle.
#[derive(Clone, Copy)]
pub struct Circle {
    pub radius: Rat,
}

impl Circle {
    pub fn new(radius: Rat) -> (s: Circle)
        ensures
            s.radius == radius,
    {
        Circle { radius }
    }
}

/// A filled axis-aligned ellipse.
#[derive(Clone, Copy)]
pub struct Ellipse {
    pub radius_x: Rat,
    pub radius_y: Rat,
}

impl Ellipse {
    pub fn new(radius_x: Rat, radius_y: Rat) -> (s: Ellipse)
        ensures
            s.radius_x == radius_x,
            s.radius_y == radius_y,
    {
        Ellipse { radius_x, radius_y }
    }
}

/// A textured quad of the given pixel size.
#[derive(Clone, Copy)]
pub struct Image {
    pub width: Rat,
    pub height: Rat,
}

impl Image {
    pub fn new(width: Rat, height: Rat) -> (s: Image)
        ensures
            s.width == width,
            s.height == height,
    {
        Image { width, height }
    }
}

/// A stroked circular arc; angles in degrees, swept in a fixed winding
/// direction.
#[derive(Clone, Copy)]
pub struct Arc {
    pub radius: Rat,
    pub start_angle: Rat,
    pub end_angle: Rat,
}

impl Arc {
    pub fn new(radius: Rat, start_angle: Rat, end_angle: Rat) -> (s: Arc)
        ensures
            s.radius == radius,
            s.start_angle == start_angle,
            s.end_angle == end_angle,
    {
        Arc { radius, start_angle, end_angle }
    }
}

/// A run of text in a font at a pixel size.
#[derive(Clone)]
pub struct Text {
    pub content: String,
    pub font_path: String,
    pub font_size: u32,
}

impl Text {
    pub fn new(content: String, font_path: String, font_size: u32) -> (s: Text)
        ensures
            s.content == content,
            s.font_path == font_path,
            s.font_size == font_size,
    {
        Text { content, font_path, font_size }
    }
}

/// The tagged union over every shape descriptor; each variant fully
/// determines the tessellation used.
#[derive(Clone)]
pub enum ShapeKind {
    Point,
    MultiPoint(MultiPoint),
    Line(Line),
    Polyline(Polyline),
    Triangle(Triangle),
    Rectangle(Rectangle),
    RoundedRectangle(RoundedRectangle),
    Polygon(Polygon),
    Circle(Circle),
    Ellipse(Ellipse),
    Arc(Arc),
    Image(Image),
    Text(Text),
}

} // verus!
