//! The polygon normalizer: computes the bounding box of a vertex sequence and
//! maps the vertices into a target box, preserving relative positions and
//! edge order, as a closed path.
//!
//! Each coordinate maps to `(x - min) * target / (max - min)`, rounded toward
//! zero. A bounding box of zero extent on an axis maps every coordinate on
//! that axis to zero (a flat line), rather than propagating an undefined
//! scale. An empty vertex sequence yields an empty path.

use vstd::prelude::*;

verus! {

use vstd::arithmetic::div_mod::lemma_div_is_ordered;
use vstd::arithmetic::div_mod::lemma_div_multiples_vanish;
use vstd::arithmetic::div_mod::lemma_div_pos_is_pos;

use crate::frame::Geometry;
use crate::frame::Path;
use crate::frame::PathItem;
use crate::frame::Shape;
use crate::geom::Point;
use crate::geom::Size;
use crate::num::ABS_MAX;
use crate::num::TARGET_MAX;
use crate::num::tdiv;
use crate::poly::Polygon;
use crate::poly::Vertex;
use crate::poly::verts_wf;
use crate::stroke::Paint;
use crate::stroke::Stroke;

/// The least horizontal coordinate of a nonempty vertex sequence.
pub open spec fn spec_min_x(vs: Seq<Vertex>) -> int
    recommends
        vs.len() > 0,
    decreases vs.len(),
{
    if vs.len() <= 1 {
        vs[0].x as int
    } else {
        let m = spec_min_x(vs.drop_last());
        let c = vs.last().x as int;
        if c < m {
            c
        } else {
            m
        }
    }
}

/// The greatest horizontal coordinate of a nonempty vertex sequence.
pub open spec fn spec_max_x(vs: Seq<Vertex>) -> int
    recommends
        vs.len() > 0,
    decreases vs.len(),
{
    if vs.len() <= 1 {
        vs[0].x as int
    } else {
        let m = spec_max_x(vs.drop_last());
        let c = vs.last().x as int;
        if c > m {
            c
        } else {
            m
        }
    }
}

/// The least vertical coordinate of a nonempty vertex sequence.
pub open spec fn spec_min_y(vs: Seq<Vertex>) -> int
    recommends
        vs.len() > 0,
    decreases vs.len(),
{
    if vs.len() <= 1 {
        vs[0].y as int
    } else {
        let m = spec_min_y(vs.drop_last());
        let c = vs.last().y as int;
        if c < m {
            c
        } else {
            m
        }
    }
}

/// The greatest vertical coordinate of a nonempty vertex sequence.
pub open spec fn spec_max_y(vs: Seq<Vertex>) -> int
    recommends
        vs.len() > 0,
    decreases vs.len(),
{
    if vs.len() <= 1 {
        vs[0].y as int
    } else {
        let m = spec_max_y(vs.drop_last());
        let c = vs.last().y as int;
        if c > m {
            c
        } else {
            m
        }
    }
}

/// The bounding box bounds every vertex and is attained by one.
pub proof fn lemma_bbox(vs: Seq<Vertex>)
    requires
        vs.len() > 0,
    ensures
        forall|i: int|
            0 <= i < vs.len() ==> spec_min_x(vs) <= (#[trigger] vs[i]).x as int <= spec_max_x(vs)
                && spec_min_y(vs) <= vs[i].y as int <= spec_max_y(vs),
        exists|i: int| 0 <= i < vs.len() && (#[trigger] vs[i]).x as int == spec_min_x(vs),
        exists|i: int| 0 <= i < vs.len() && (#[trigger] vs[i]).x as int == spec_max_x(vs),
        exists|i: int| 0 <= i < vs.len() && (#[trigger] vs[i]).y as int == spec_min_y(vs),
        exists|i: int| 0 <= i < vs.len() && (#[trigger] vs[i]).y as int == spec_max_y(vs),
    decreases vs.len(),
{
    if vs.len() == 1 {
        assert(vs[0].x as int == spec_min_x(vs));
        assert(vs[0].y as int == spec_min_y(vs));
    } else {
        let head = vs.drop_last();
        lemma_bbox(head);
        assert(forall|i: int| 0 <= i < head.len() ==> head[i] == vs[i]);
        let last = vs.len() - 1;
        if vs.last().x as int == spec_min_x(vs) {
            assert(vs[last].x as int == spec_min_x(vs));
        } else {
            let i = choose|i: int|
                0 <= i < head.len() && (#[trigger] head[i]).x as int == spec_min_x(head);
            assert(vs[i].x as int == spec_min_x(vs));
        }
        if vs.last().x as int == spec_max_x(vs) {
            assert(vs[last].x as int == spec_max_x(vs));
        } else {
            let i = choose|i: int|
                0 <= i < head.len() && (#[trigger] head[i]).x as int == spec_max_x(head);
            assert(vs[i].x as int == spec_max_x(vs));
        }
        if vs.last().y as int == spec_min_y(vs) {
            assert(vs[last].y as int == spec_min_y(vs));
        } else {
            let i = choose|i: int|
                0 <= i < head.len() && (#[trigger] head[i]).y as int == spec_min_y(head);
            assert(vs[i].y as int == spec_min_y(vs));
        }
        if vs.last().y as int == spec_max_y(vs) {
            assert(vs[last].y as int == spec_max_y(vs));
        } else {
            let i = choose|i: int|
                0 <= i < head.len() && (#[trigger] head[i]).y as int == spec_max_y(head);
            assert(vs[i].y as int == spec_max_y(vs));
        }
    }
}

/// Where a coordinate lands in the target extent: `(x - mn) * target`
/// divided by the bounding-box extent, rounded toward zero; zero when the
/// extent is zero.
pub open spec fn spec_map_coord(x: int, mn: int, mx: int, target: int) -> int {
    if mx - mn == 0 {
        0
    } else {
        tdiv((x - mn) * target, mx - mn)
    }
}

/// Computes [`spec_map_coord`].
fn map_coord(x: i64, mn: i64, mx: i64, target: i64) -> (r: i64)
    requires
        -ABS_MAX <= mn as int <= x as int <= mx as int <= ABS_MAX,
        -TARGET_MAX <= target <= TARGET_MAX,
    ensures
        r == spec_map_coord(x as int, mn as int, mx as int, target as int),
        target >= 0 ==> 0 <= r <= target,
        target < 0 ==> target <= r <= 0,
{
    if mx == mn {
        return 0;
    }
    let d: i64 = x - mn;
    let e: i64 = mx - mn;
    let tu: u128 = if target < 0 {
        (-target) as u128
    } else {
        target as u128
    };
    proof {
        assert((d as int) * (tu as int) <= (e as int) * (tu as int)) by (nonlinear_arith)
            requires
                0 <= d as int <= e as int,
                0 <= tu as int,
        ;
        assert((e as int) * (tu as int) <= 2 * (ABS_MAX as int) * (TARGET_MAX as int))
            by (nonlinear_arith)
            requires
                0 < e as int <= 2 * (ABS_MAX as int),
                0 <= tu as int <= TARGET_MAX as int,
        ;
    }
    let p: u128 = (d as u128) * tu;
    let q: u128 = p / (e as u128);
    proof {
        lemma_div_is_ordered(p as int, (e as int) * (tu as int), e as int);
        lemma_div_multiples_vanish(tu as int, e as int);
        lemma_div_pos_is_pos(p as int, e as int);
        let t = target as int;
        if t >= 0 {
            assert((d as int) * t == p as int) by (nonlinear_arith)
                requires
                    p as int == (d as int) * (tu as int),
                    tu as int == t,
                    t >= 0,
            ;
        } else {
            assert((d as int) * t == -(p as int)) by (nonlinear_arith)
                requires
                    p as int == (d as int) * (tu as int),
                    tu as int == -t,
                    t < 0,
            ;
        }
    }
    if target < 0 {
        -(q as i64)
    } else {
        q as i64
    }
}

/// The mapped position of a vertex within the target box.
pub open spec fn spec_mapped(v: Vertex, vs: Seq<Vertex>, w: int, h: int) -> Point {
    Point {
        x: spec_map_coord(v.x as int, spec_min_x(vs), spec_max_x(vs), w) as i64,
        y: spec_map_coord(v.y as int, spec_min_y(vs), spec_max_y(vs), h) as i64,
    }
}

/// The closed path of a vertex sequence normalized into a `w` by `h` box:
/// move to the first mapped vertex, a line to each further mapped vertex in
/// order, then close; empty for an empty sequence.
pub open spec fn spec_poly_path(vs: Seq<Vertex>, w: int, h: int) -> Seq<PathItem> {
    if vs.len() == 0 {
        Seq::<PathItem>::empty()
    } else {
        seq![PathItem::MoveTo(spec_mapped(vs[0], vs, w, h))] + Seq::new(
            (vs.len() - 1) as nat,
            |i: int| PathItem::LineTo(spec_mapped(vs[i + 1], vs, w, h)),
        ) + seq![PathItem::Close]
    }
}

/// Builds the paint primitive for a polygon normalized into the given box:
/// the closed path of the vertices scaled and translated into the box, with
/// the given fill and stroke.
#[verifier::loop_isolation(false)]
pub fn polygonal_shape(size: Size, polygon: Polygon, fill: Option<Paint>, stroke: Option<
    Stroke,
>) -> (r: Shape)
    requires
        polygon.wf(),
        -TARGET_MAX <= size.x <= TARGET_MAX,
        -TARGET_MAX <= size.y <= TARGET_MAX,
    ensures
        r.fill == fill,
        r.stroke == stroke,
        r.geometry matches Geometry::Path(p) && p.items@ == spec_poly_path(
            polygon.vertices@,
            size.x as int,
            size.y as int,
        ),
{
    let ghost vs = polygon.vertices@;
    let ghost w = size.x as int;
    let ghost h = size.y as int;
    let n = polygon.vertices.len();
    let mut items: Vec<PathItem> = Vec::new();
    if n == 0 {
        assert(items@ =~= spec_poly_path(vs, w, h));
        return Shape { geometry: Geometry::Path(Path { items }), fill, stroke };
    }
    proof {
        lemma_bbox(vs);
    }
    let mut min_x: i64 = polygon.vertices[0].x;
    let mut max_x: i64 = polygon.vertices[0].x;
    let mut min_y: i64 = polygon.vertices[0].y;
    let mut max_y: i64 = polygon.vertices[0].y;
    let mut i: usize = 1;
    while i < n
        invariant
            1 <= i <= n,
            min_x as int == spec_min_x(vs.take(i as int)),
            max_x as int == spec_max_x(vs.take(i as int)),
            min_y as int == spec_min_y(vs.take(i as int)),
            max_y as int == spec_max_y(vs.take(i as int)),
        decreases n - i,
    {
        proof {
            assert(vs.take(i as int + 1).drop_last() =~= vs.take(i as int));
            assert(vs.take(i as int + 1).last() == vs[i as int]);
        }
        let v = polygon.vertices[i];
        if v.x < min_x {
            min_x = v.x;
        }
        if v.x > max_x {
            max_x = v.x;
        }
        if v.y < min_y {
            min_y = v.y;
        }
        if v.y > max_y {
            max_y = v.y;
        }
        i = i + 1;
    }
    proof {
        assert(vs.take(n as int) =~= vs);
        assert(vs[0].wf());
        let iw = choose|j: int| 0 <= j < vs.len() && (#[trigger] vs[j]).x as int == spec_min_x(vs);
        assert(vs[iw].wf());
        let ix = choose|j: int| 0 <= j < vs.len() && (#[trigger] vs[j]).x as int == spec_max_x(vs);
        assert(vs[ix].wf());
        let iy = choose|j: int| 0 <= j < vs.len() && (#[trigger] vs[j]).y as int == spec_min_y(vs);
        assert(vs[iy].wf());
        let ih = choose|j: int| 0 <= j < vs.len() && (#[trigger] vs[j]).y as int == spec_max_y(vs);
        assert(vs[ih].wf());
        assert(-ABS_MAX <= min_x as int && max_x as int <= ABS_MAX);
        assert(-ABS_MAX <= min_y as int && max_y as int <= ABS_MAX);
    }
    let first = polygon.vertices[0];
    let fx = map_coord(first.x, min_x, max_x, size.x);
    let fy = map_coord(first.y, min_y, max_y, size.y);
    items.push(PathItem::MoveTo(Point { x: fx, y: fy }));
    let ghost line_of = |j: int| PathItem::LineTo(spec_mapped(vs[j + 1], vs, w, h));
    let mut k: usize = 1;
    while k < n
        invariant
            1 <= k <= n,
            min_x as int == spec_min_x(vs),
            max_x as int == spec_max_x(vs),
            min_y as int == spec_min_y(vs),
            max_y as int == spec_max_y(vs),
            items@ =~= seq![PathItem::MoveTo(spec_mapped(vs[0], vs, w, h))] + Seq::new(
                (k - 1) as nat,
                line_of,
            ),
        decreases n - k,
    {
        proof {
            assert(vs[k as int].wf());
        }
        let v = polygon.vertices[k];
        let mx = map_coord(v.x, min_x, max_x, size.x);
        let my = map_coord(v.y, min_y, max_y, size.y);
        items.push(PathItem::LineTo(Point { x: mx, y: my }));
        proof {
            assert(line_of(k as int - 1) == PathItem::LineTo(spec_mapped(vs[k as int], vs, w, h)));
            assert(Seq::new(k as nat, line_of) =~= Seq::new((k - 1) as nat, line_of).push(
                line_of(k as int - 1),
            ));
        }
        k = k + 1;
    }
    items.push(PathItem::Close);
    proof {
        assert(items@ =~= spec_poly_path(vs, w, h));
    }
    Shape { geometry: Geometry::Path(Path { items }), fill, stroke }
}

/// Every vertex of a non-degenerate set maps into the target box, and the
/// mapped bounding box is exactly the box: the extremes are attained.
pub proof fn lemma_normalized_in_box(vs: Seq<Vertex>, w: int, h: int)
    requires
        vs.len() > 0,
        spec_min_x(vs) < spec_max_x(vs),
        spec_min_y(vs) < spec_max_y(vs),
        0 <= w <= TARGET_MAX,
        0 <= h <= TARGET_MAX,
    ensures
        forall|i: int|
            0 <= i < vs.len() ==> {
                let p = #[trigger] spec_mapped(vs[i], vs, w, h);
                0 <= p.x as int <= w && 0 <= p.y as int <= h
            },
        exists|i: int|
            0 <= i < vs.len() && (#[trigger] spec_mapped(vs[i], vs, w, h)).x as int == 0,
        exists|i: int|
            0 <= i < vs.len() && (#[trigger] spec_mapped(vs[i], vs, w, h)).x as int == w,
        exists|i: int|
            0 <= i < vs.len() && (#[trigger] spec_mapped(vs[i], vs, w, h)).y as int == 0,
        exists|i: int|
            0 <= i < vs.len() && (#[trigger] spec_mapped(vs[i], vs, w, h)).y as int == h,
{
    lemma_bbox(vs);
    let mnx = spec_min_x(vs);
    let mxx = spec_max_x(vs);
    let mny = spec_min_y(vs);
    let mxy = spec_max_y(vs);
    assert forall|i: int| 0 <= i < vs.len() implies {
        let p = #[trigger] spec_mapped(vs[i], vs, w, h);
        0 <= p.x as int <= w && 0 <= p.y as int <= h
    } by {
        lemma_map_coord_in_range(vs[i].x as int, mnx, mxx, w);
        lemma_map_coord_in_range(vs[i].y as int, mny, mxy, h);
    }
    let iw = choose|i: int| 0 <= i < vs.len() && (#[trigger] vs[i]).x as int == spec_min_x(vs);
    lemma_map_coord_in_range(vs[iw].x as int, mnx, mxx, w);
    lemma_map_coord_in_range(vs[iw].y as int, mny, mxy, h);
    assert(spec_mapped(vs[iw], vs, w, h).x as int == 0);
    let ix = choose|i: int| 0 <= i < vs.len() && (#[trigger] vs[i]).x as int == spec_max_x(vs);
    lemma_map_coord_in_range(vs[ix].x as int, mnx, mxx, w);
    lemma_map_coord_in_range(vs[ix].y as int, mny, mxy, h);
    assert(spec_mapped(vs[ix], vs, w, h).x as int == w);
    let iy = choose|i: int| 0 <= i < vs.len() && (#[trigger] vs[i]).y as int == spec_min_y(vs);
    lemma_map_coord_in_range(vs[iy].x as int, mnx, mxx, w);
    lemma_map_coord_in_range(vs[iy].y as int, mny, mxy, h);
    assert(spec_mapped(vs[iy], vs, w, h).y as int == 0);
    let ih = choose|i: int| 0 <= i < vs.len() && (#[trigger] vs[i]).y as int == spec_max_y(vs);
    lemma_map_coord_in_range(vs[ih].x as int, mnx, mxx, w);
    lemma_map_coord_in_range(vs[ih].y as int, mny, mxy, h);
    assert(spec_mapped(vs[ih], vs, w, h).y as int == h);
}

/// A coordinate within the bounding box maps into `[0, target]`; the box's
/// own bounds map exactly to the ends.
proof fn lemma_map_coord_in_range(x: int, mn: int, mx: int, target: int)
    requires
        mn <= x <= mx,
        mn < mx,
        0 <= target,
    ensures
        0 <= spec_map_coord(x, mn, mx, target) <= target,
        x == mn ==> spec_map_coord(x, mn, mx, target) == 0,
        x == mx ==> spec_map_coord(x, mn, mx, target) == target,
{
    let d = x - mn;
    let e = mx - mn;
    assert(0 <= d * target <= e * target) by (nonlinear_arith)
        requires
            0 <= d <= e,
            0 <= target,
    ;
    lemma_div_is_ordered(d * target, e * target, e);
    lemma_div_multiples_vanish(target, e);
    lemma_div_pos_is_pos(d * target, e);
    if x == mn {
        assert(d * target == 0) by (nonlinear_arith)
            requires
                d == 0,
        ;
    }
}

} // verus!
