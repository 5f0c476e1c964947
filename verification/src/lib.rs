//! A geometry and layout engine for shape primitives: rectangles, squares,
//! ellipses, circles and polygons, each optionally wrapping nested content.
//!
//! The crate reconciles user-specified dimensions with content-driven sizing
//! (square and circle frames always come out exactly square), folds
//! partially-specified per-side and per-corner attributes across nested style
//! scopes, parses and normalizes polygon vertex lists, and emits the paint
//! primitive for the final frame.

use vstd::prelude::*;

pub mod eco;
pub mod elems;
pub mod frame;
pub mod geom;
pub mod layout;
pub mod normalize;
pub mod num;
pub mod poly;
pub mod repr;
pub mod sides;
pub mod stroke;
pub mod text;

verus! {

/// A category of shape.
#[derive(Debug, Copy, Clone, Eq, PartialEq, Hash, Structural)]
pub enum ShapeKind {
    /// A rectangle with equal side lengths.
    Square,
    /// A quadrilateral with four right angles.
    Rect,
    /// An ellipse with coinciding foci.
    Circle,
    /// A curve around two focal points.
    Ellipse,
    /// A polygon with any number of vertices.
    Polygon,
}

impl ShapeKind {
    /// Whether this shape kind is curvy.
    pub fn is_round(self) -> (r: bool)
        ensures
            r == (self is Circle || self is Ellipse),
    {
        matches!(self, Self::Circle | Self::Ellipse)
    }

    /// Whether this shape kind is drawn from an explicit vertex list.
    pub fn is_polygonal(self) -> (r: bool)
        ensures
            r == (self is Polygon),
    {
        matches!(self, Self::Polygon)
    }

    /// Whether this shape kind must end up with equal side lengths.
    pub fn is_quadratic(self) -> (r: bool)
        ensures
            r == (self is Square || self is Circle),
    {
        matches!(self, Self::Square | Self::Circle)
    }
}

} // verus!
