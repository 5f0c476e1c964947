//! Vertices and polygons: ordered vertex sequences whose insertion order
//! defines the edge sequence. Zero or one vertices yield a degenerate path;
//! duplicate consecutive vertices are legal and produce zero-length edges.

use vstd::prelude::*;

verus! {

use crate::num::ABS_MAX;

/// A vertex: a pair of fixed-point coordinates in micro-units.
#[derive(Debug, Clone, Copy, PartialEq, Eq, Hash, Structural)]
pub struct Vertex {
    /// The horizontal coordinate, in micro-units.
    pub x: i64,
    /// The vertical coordinate, in micro-units.
    pub y: i64,
}

impl Vertex {
    /// Whether both coordinates lie within the raw input domain.
    pub open spec fn wf(self) -> bool {
        &&& -ABS_MAX <= self.x <= ABS_MAX
        &&& -ABS_MAX <= self.y <= ABS_MAX
    }

    /// Makes a vertex from its coordinates in micro-units.
    pub fn new(x: i64, y: i64) -> (r: Vertex)
        ensures
            r.x == x,
            r.y == y,
    {
        Vertex { x, y }
    }
}

impl Default for Vertex {
    /// The origin vertex.
    fn default() -> (r: Vertex)
        ensures
            r.x == 0,
            r.y == 0,
    {
        Vertex { x: 0, y: 0 }
    }
}

/// Whether every vertex of a sequence lies within the raw input domain.
pub open spec fn verts_wf(vs: Seq<Vertex>) -> bool {
    forall|i: int| 0 <= i < vs.len() ==> #[trigger] vs[i].wf()
}

/// An authoring-facing ordered list of vertices, as produced by the textual
/// vertex grammar; converts losslessly to and from [`Polygon`].
#[derive(Debug, Clone, PartialEq, Eq, Hash)]
pub struct Vertices {
    /// The vertices, in authoring order.
    pub vals: Vec<Vertex>,
}

impl Vertices {
    /// Wraps a vertex list.
    pub fn new(vals: Vec<Vertex>) -> (r: Vertices)
        ensures
            r.vals@ == vals@,
    {
        Vertices { vals }
    }

    /// Converts a polygon back into the authoring-facing list, losslessly.
    pub fn from_polygon(polygon: Polygon) -> (r: Vertices)
        ensures
            r.vals@ == polygon.vertices@,
    {
        Vertices { vals: polygon.vertices }
    }
}

/// A polygon: an ordered vertex sequence; the order defines the edges.
#[derive(Debug, Clone, PartialEq, Eq, Hash)]
pub struct Polygon {
    /// The vertices, in edge order.
    pub vertices: Vec<Vertex>,
}

impl Polygon {
    /// Whether every vertex lies within the raw input domain.
    pub open spec fn wf(self) -> bool {
        verts_wf(self.vertices@)
    }

    /// Creates a new, empty polygon.
    pub fn new() -> (r: Polygon)
        ensures
            r.vertices@ =~= Seq::<Vertex>::empty(),
    {
        Polygon { vertices: Vec::new() }
    }

    /// Converts the authoring-facing list into a polygon, losslessly.
    pub fn from_vertices(vertices: Vertices) -> (r: Polygon)
        ensures
            r.vertices@ == vertices.vals@,
    {
        Polygon { vertices: vertices.vals }
    }

    /// An element-for-element copy of this polygon.
    pub fn duplicate(&self) -> (r: Polygon)
        ensures
            r.vertices@ == self.vertices@,
    {
        let n = self.vertices.len();
        let mut vs: Vec<Vertex> = Vec::new();
        let mut i: usize = 0;
        while i < n
            invariant
                0 <= i <= n,
                n == self.vertices@.len(),
                vs@ =~= self.vertices@.take(i as int),
            decreases n - i,
        {
            vs.push(self.vertices[i]);
            proof {
                assert(self.vertices@.take(i + 1 as int) =~= self.vertices@.take(i as int).push(
                    self.vertices@[i as int],
                ));
            }
            i = i + 1;
        }
        proof {
            assert(self.vertices@.take(n as int) =~= self.vertices@);
        }
        Polygon { vertices: vs }
    }
}

impl Default for Polygon {
    /// The empty polygon.
    fn default() -> (r: Polygon)
        ensures
            r.vertices@ =~= Seq::<Vertex>::empty(),
    {
        Polygon { vertices: Vec::new() }
    }
}

} // verus!
