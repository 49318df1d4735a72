//! Shape tessellation: from descriptors to triangle geometry.
//!
//! Every builder emits local-space geometry anchored near the origin; the
//! anchor offset is applied at draw time, so moving a shape never rebuilds
//! its vertices. Stroked shapes widen each segment by half the stroke
//! width on each side of an approximate unit normal; the normal's
//! direction is exact (proved perpendicular to the segment), only its
//! length comes from an integer square root. Join decisions — straight,
//! bevel, or bevel plus miter — are exact rational comparisons.

use crate::color::Color;
use crate::font::FontAtlas;
use crate::geometry::{Attribute, DrawingMode, Geometry};
use crate::mesh::{Mesh, ShaderKind};
use crate::camera::{q_half, rat_safe};
use crate::rat::{
    lemma_q_eq_sign, lemma_q_eq_trans, lemma_q_mul_congr, lemma_q_mul_congr_right, lemma_q_neg_congr,
    lemma_q_norm, lemma_q_norm_int, lemma_q_norm_small, lemma_q_op_bounds, lemma_q_sub_congr,
    lemma_q_sub_congr_right, q_add, q_div, q_eq, q_int, q_le, q_lt, q_mul, q_neg, q_norm, q_pixel,
    q_sub, rat_small, stored, Q, Rat,
};
use crate::shapes::{Line, MultiPoint, Polygon, ShapeKind, Text};
use vstd::prelude::*;

verus! {

/// Why a build request was refused.
#[derive(Clone, Copy, Debug, PartialEq, Eq, Structural)]
pub enum GeometryError {
    /// An exact intermediate did not fit the stored component bound.
    Unrepresentable,
    /// Fewer than two distinct points were left to stroke.
    Degenerate,
}

/// Strokes narrower than this (in pixels) are widened to it, so thin
/// strokes stay visible: 3/2 of a pixel.
pub open spec fn min_stroke_width() -> Q {
    Q { n: 3, d: 2 }
}

/// The stroke width actually used: the requested one, clamped up to the
/// minimum.
pub open spec fn effective_stroke_width(w: Q) -> Q {
    if q_lt(w, min_stroke_width()) {
        min_stroke_width()
    } else {
        w
    }
}

/// Fill and stroke styling for a shape.
#[derive(Clone)]
pub struct ShapeStyle {
    pub fill: Option<Color>,
    pub stroke_color: Option<Color>,
    pub stroke_width: Option<Rat>,
}

impl ShapeStyle {
    /// White fill, no stroke.
    pub fn default() -> (s: ShapeStyle)
        ensures
            s.fill matches Some(c) && c.r@ == q_int(1) && c.g@ == q_int(1) && c.b@ == q_int(1),
            s.stroke_color is None,
            s.stroke_width is None,
    {
        ShapeStyle { fill: Some(Color::white()), stroke_color: None, stroke_width: None }
    }

    pub fn fill(fill: Color) -> (s: ShapeStyle)
        ensures
            s.fill == Some(fill),
            s.stroke_color is None,
            s.stroke_width is None,
    {
        ShapeStyle { fill: Some(fill), stroke_color: None, stroke_width: None }
    }

    pub fn stroke(color: Color, width: Rat) -> (s: ShapeStyle)
        ensures
            s.fill is None,
            s.stroke_color == Some(color),
            s.stroke_width == Some(width),
    {
        ShapeStyle { fill: None, stroke_color: Some(color), stroke_width: Some(width) }
    }

    pub fn fill_and_stroke(fill: Color, stroke: Color, width: Rat) -> (s: ShapeStyle)
        ensures
            s.fill == Some(fill),
            s.stroke_color == Some(stroke),
            s.stroke_width == Some(width),
    {
        ShapeStyle { fill: Some(fill), stroke_color: Some(stroke), stroke_width: Some(width) }
    }
}

/// The flat component stream of a point list: x then y of each point.
pub open spec fn flat_points(pts: Seq<(Rat, Rat)>) -> Seq<Rat>
    decreases pts.len(),
{
    if pts.len() == 0 {
        Seq::empty()
    } else {
        flat_points(pts.drop_last()).push(pts.last().0).push(pts.last().1)
    }
}

/// The flat stream has two components per point.
pub proof fn lemma_flat_points_len(pts: Seq<(Rat, Rat)>)
    ensures
        flat_points(pts).len() == 2 * pts.len(),
    decreases pts.len(),
{
    if pts.len() > 0 {
        lemma_flat_points_len(pts.drop_last());
    }
}

/// Component `2i` of the flat stream is point `i`'s x, component
/// `2i + 1` its y.
pub proof fn lemma_flat_points_index(pts: Seq<(Rat, Rat)>, i: int)
    requires
        0 <= i < pts.len(),
    ensures
        flat_points(pts).len() == 2 * pts.len(),
        flat_points(pts)[2 * i] == pts[i].0,
        flat_points(pts)[2 * i + 1] == pts[i].1,
    decreases pts.len(),
{
    lemma_flat_points_len(pts);
    lemma_flat_points_len(pts.drop_last());
    if i < pts.len() - 1 {
        lemma_flat_points_index(pts.drop_last(), i);
        assert(pts.drop_last()[i] == pts[i]);
    }
}

/// Flatten points into interleaved components.
fn flatten(pts: &[(Rat, Rat)]) -> (r: Vec<Rat>)
    ensures
        r@ == flat_points(pts@),
        r@.len() == 2 * pts@.len(),
{
    let mut out: Vec<Rat> = Vec::new();
    let n = pts.len();
    let mut i: usize = 0;
    while i < n
        invariant
            i <= n,
            n == pts@.len(),
            out@ == flat_points(pts@.take(i as int)),
            out@.len() == 2 * i,
        decreases n - i,
    {
        let (x, y) = pts[i];
        out.push(x);
        out.push(y);
        proof {
            assert(pts@.take(i + 1).drop_last() =~= pts@.take(i as int));
        }
        i = i + 1;
    }
    proof {
        assert(pts@.take(n as int) =~= pts@);
    }
    out
}

/// A shape ready to draw: its tessellated mesh, an anchor position, a
/// uniform scale, and the descriptor it was built from.
pub struct ShapeRenderable {
    pub x: Rat,
    pub y: Rat,
    pub scale: Rat,
    pub mesh: Mesh,
    pub shape: ShapeKind,
}

impl ShapeRenderable {
    /// A single vertex at the origin, drawn as a point.
    pub fn point_geometry() -> (g: Geometry)
        ensures
            g.drawing_mode == DrawingMode::Points,
            g.verts@.len() == 2,
            g.verts@[0]@ == q_int(0) && g.verts@[1]@ == q_int(0),
            g.vertex_count == 1,
            g.instance_count == 0,
    {
        let mut geometry = Geometry::new(DrawingMode::Points);
        let verts = vec![Rat::zero(), Rat::zero()];
        geometry.add_buffer(verts, 2);
        geometry.add_vertex_attribute(Attribute::new(0, 2, 2, 0));
        geometry
    }

    /// One vertex per point, drawn as a point list.
    pub fn point_list_geometry(points: &[(Rat, Rat)]) -> (g: Geometry)
        ensures
            g.drawing_mode == DrawingMode::Points,
            g.verts@ == flat_points(points@),
            g.vertex_count == points@.len(),
            g.instance_count == 0,
    {
        let verts = flatten(points);
        let mut geometry = Geometry::new(DrawingMode::Points);
        geometry.add_buffer(verts, 2);
        geometry.add_vertex_attribute(Attribute::new(0, 2, 2, 0));
        geometry
    }

    /// The three vertices of a triangle, as a triangle list.
    pub fn triangle_geometry(vertices: &[(Rat, Rat); 3]) -> (g: Geometry)
        ensures
            g.drawing_mode == DrawingMode::Triangles,
            g.verts@ =~= seq![
                vertices@[0].0,
                vertices@[0].1,
                vertices@[1].0,
                vertices@[1].1,
                vertices@[2].0,
                vertices@[2].1,
            ],
            g.vertex_count == 3,
            g.instance_count == 0,
    {
        let verts = vec![
            vertices[0].0,
            vertices[0].1,
            vertices[1].0,
            vertices[1].1,
            vertices[2].0,
            vertices[2].1,
        ];
        let mut geometry = Geometry::new(DrawingMode::Triangles);
        geometry.add_buffer(verts, 2);
        geometry.add_vertex_attribute(Attribute::new(0, 2, 2, 0));
        geometry
    }

    /// A `width x height` rectangle with its corner at the origin, as a
    /// four-vertex triangle strip: bottom-left, bottom-right, top-left,
    /// top-right.
    pub fn rectangle_geometry(width: Rat, height: Rat) -> (g: Geometry)
        ensures
            g.drawing_mode == DrawingMode::TriangleStrip,
            g.verts@.len() == 8,
            g.verts@[0]@ == q_int(0) && g.verts@[1]@ == q_int(0),
            g.verts@[2] == width && g.verts@[3]@ == q_int(0),
            g.verts@[4]@ == q_int(0) && g.verts@[5] == height,
            g.verts@[6] == width && g.verts@[7] == height,
            g.vertex_count == 4,
            g.instance_count == 0,
    {
        let verts = vec![
            Rat::zero(),
            Rat::zero(),
            width,
            Rat::zero(),
            Rat::zero(),
            height,
            width,
            height,
        ];
        let mut geometry = Geometry::new(DrawingMode::TriangleStrip);
        geometry.add_buffer(verts, 2);
        geometry.add_vertex_attribute(Attribute::new(0, 2, 2, 0));
        geometry
    }

    /// A polygon as a triangle fan anchored at its first point. The caller
    /// supplies a simple polygon; fan triangulation is correct for convex
    /// or star-shaped-from-first-vertex inputs, and that limitation is the
    /// caller's to respect — the builder does not validate it.
    pub fn polygon_geometry(points: &[(Rat, Rat)]) -> (g: Geometry)
        requires
            points@.len() >= 3,
        ensures
            g.drawing_mode == DrawingMode::TriangleFan,
            g.verts@ == flat_points(points@),
            g.vertex_count == points@.len(),
            g.instance_count == 0,
    {
        let verts = flatten(points);
        let mut geometry = Geometry::new(DrawingMode::TriangleFan);
        geometry.add_buffer(verts, 2);
        geometry.add_vertex_attribute(Attribute::new(0, 2, 2, 0));
        geometry
    }

    /// A `width x height` textured quad with UV (0,0)-(1,1): two
    /// triangles, four components per vertex (x, y, u, v).
    pub fn image_geometry(width: Rat, height: Rat) -> (g: Geometry)
        ensures
            g.drawing_mode == DrawingMode::Triangles,
            g.verts@.len() == 24,
            g.vertex_count == 6,
            g.values_per_vertex == 4,
            // triangle 1: bottom-left, bottom-right, top-right
            g.verts@[0]@ == q_int(0) && g.verts@[1]@ == q_int(0),
            g.verts@[4] == width && g.verts@[5]@ == q_int(0),
            g.verts@[8] == width && g.verts@[9] == height,
            // triangle 2: bottom-left, top-right, top-left
            g.verts@[12]@ == q_int(0) && g.verts@[13]@ == q_int(0),
            g.verts@[16] == width && g.verts@[17] == height,
            g.verts@[20]@ == q_int(0) && g.verts@[21] == height,
            // UV corners
            g.verts@[2]@ == q_int(0) && g.verts@[3]@ == q_int(0),
            g.verts@[6]@ == q_int(1) && g.verts@[7]@ == q_int(0),
            g.verts@[10]@ == q_int(1) && g.verts@[11]@ == q_int(1),
            g.verts@[14]@ == q_int(0) && g.verts@[15]@ == q_int(0),
            g.verts@[18]@ == q_int(1) && g.verts@[19]@ == q_int(1),
            g.verts@[22]@ == q_int(0) && g.verts@[23]@ == q_int(1),
            g.instance_count == 0,
    {
        let verts = vec![
            Rat::zero(),
            Rat::zero(),
            Rat::zero(),
            Rat::zero(),
            width,
            Rat::zero(),
            Rat::one(),
            Rat::zero(),
            width,
            height,
            Rat::one(),
            Rat::one(),
            Rat::zero(),
            Rat::zero(),
            Rat::zero(),
            Rat::zero(),
            width,
            height,
            Rat::one(),
            Rat::one(),
            Rat::zero(),
            height,
            Rat::zero(),
            Rat::one(),
        ];
        let mut geometry = Geometry::new(DrawingMode::Triangles);
        geometry.add_buffer(verts, 4);
        geometry.add_vertex_attribute(Attribute::new(0, 2, 4, 0));
        geometry.add_vertex_attribute(Attribute::new(1, 2, 4, 2));
        geometry
    }
}

/// Floor square root by bisection.
fn isqrt_u128(n: u128) -> (r: u128)
    requires
        n < 0x4000_0000_0000_0000_0000_0000_0000_0000,
    ensures
        r * r <= n,
        n < (r + 1) * (r + 1),
        r < 0x8000_0000_0000_0000,
{
    let mut lo: u128 = 0;
    let mut hi: u128 = 0x8000_0000_0000_0000 - 1;
    proof {
        assert(n < (hi + 1) * (hi + 1)) by (nonlinear_arith)
            requires
                n < 0x4000_0000_0000_0000_0000_0000_0000_0000,
                hi == 0x8000_0000_0000_0000 - 1,
        ;
    }
    while lo < hi
        invariant
            lo <= hi,
            lo * lo <= n,
            n < (hi + 1) * (hi + 1),
            hi < 0x8000_0000_0000_0000,
        decreases hi - lo,
    {
        let mid = lo + (hi - lo + 1) / 2;
        proof {
            assert(mid * mid < 0x4000_0000_0000_0000_0000_0000_0000_0000) by (nonlinear_arith)
                requires
                    mid < 0x8000_0000_0000_0000,
            ;
        }
        if mid * mid <= n {
            lo = mid;
        } else {
            hi = mid - 1;
        }
    }
    lo
}

/// The squared length of the segment vector `(dx, dy)`, scaled by the
/// square of the common denominator: with `a = dx.n * dy.d` and
/// `b = dy.n * dx.d`, this is `a*a + b*b`.
pub open spec fn seg_len_sq_scaled(dx: Q, dy: Q) -> int {
    let a = dx.n * dy.d;
    let b = dy.n * dx.d;
    a * a + b * b
}

/// An under-approximation of the segment length `sqrt(dx^2 + dy^2)`:
/// the floor square root of the scaled squared length, over the common
/// denominator. Exact whenever the squared length is a perfect square.
fn approx_len(dx: Rat, dy: Rat) -> (r: Rat)
    requires
        -0x4000_0000 <= dx.num <= 0x4000_0000,
        0 < dx.den <= 0x4000_0000,
        -0x4000_0000 <= dy.num <= 0x4000_0000,
        0 < dy.den <= 0x4000_0000,
    ensures
        rat_small(r),
        r.num >= 0,
        r.den == dx.den * dy.den,
        r.num * r.num <= seg_len_sq_scaled(dx@, dy@),
        seg_len_sq_scaled(dx@, dy@) < (r.num + 1) * (r.num + 1),
        (dx.num != 0 || dy.num != 0) ==> r.num >= 1,
{
    proof {
        assert(-0x1000_0000_0000_0000 <= dx.num * dy.den <= 0x1000_0000_0000_0000
            && -0x1000_0000_0000_0000 <= dy.num * dx.den <= 0x1000_0000_0000_0000
            && 0 < dx.den * dy.den <= 0x1000_0000_0000_0000) by (nonlinear_arith)
            requires
                -0x4000_0000 <= dx.num <= 0x4000_0000,
                0 < dx.den <= 0x4000_0000,
                -0x4000_0000 <= dy.num <= 0x4000_0000,
                0 < dy.den <= 0x4000_0000,
        ;
    }
    let a = dx.num * dy.den;
    let b = dy.num * dx.den;
    proof {
        assert(0 <= a * a <= 0x1000_0000_0000_0000 * 0x1000_0000_0000_0000 && 0 <= b * b
            <= 0x1000_0000_0000_0000 * 0x1000_0000_0000_0000) by (nonlinear_arith)
            requires
                -0x1000_0000_0000_0000 <= a <= 0x1000_0000_0000_0000,
                -0x1000_0000_0000_0000 <= b <= 0x1000_0000_0000_0000,
        ;
        assert(dx.num != 0 ==> a != 0) by (nonlinear_arith)
            requires
                dy.den > 0,
                a == dx.num * dy.den,
        ;
        assert(dy.num != 0 ==> b != 0) by (nonlinear_arith)
            requires
                dx.den > 0,
                b == dy.num * dx.den,
        ;
        assert(a != 0 ==> a * a >= 1) by (nonlinear_arith);
        assert(b != 0 ==> b * b >= 1) by (nonlinear_arith);
    }
    let s = (a * a + b * b) as u128;
    let root = isqrt_u128(s);
    proof {
        assert(root <= 0x2000_0000_0000_0000) by (nonlinear_arith)
            requires
                root * root <= s,
                s <= 0x200_0000_0000_0000_0000_0000_0000_0000,
        ;
        assert(s >= 1 ==> root >= 1) by (nonlinear_arith)
            requires
                s < (root + 1) * (root + 1),
        ;
    }
    Rat { num: root as i128, den: dx.den * dy.den }
}

/// The 12 components of one stroked-segment quad, in emission order:
/// the two triangles of the rectangle `p1 +- o` to `p2 +- o`.
pub open spec fn line_quad_ok(
    vs: Seq<Rat>,
    p1x: Q,
    p1y: Q,
    p2x: Q,
    p2y: Q,
    ox: Q,
    oy: Q,
) -> bool {
    &&& vs.len() == 12
    &&& q_eq(vs[0]@, q_sub(p1x, ox)) && q_eq(vs[1]@, q_sub(p1y, oy))
    &&& q_eq(vs[2]@, q_sub(p2x, ox)) && q_eq(vs[3]@, q_sub(p2y, oy))
    &&& q_eq(vs[4]@, q_add(p2x, ox)) && q_eq(vs[5]@, q_add(p2y, oy))
    &&& vs[6] == vs[4] && vs[7] == vs[5]
    &&& q_eq(vs[8]@, q_add(p1x, ox)) && q_eq(vs[9]@, q_add(p1y, oy))
    &&& vs[10] == vs[0] && vs[11] == vs[1]
}

/// The offset `(ox, oy)` is a nonnegative multiple `t` of the left-hand
/// perpendicular of the segment direction `(dx, dy)` — so it is exactly
/// perpendicular to the segment.
pub open spec fn perp_offset_ok(dx: Q, dy: Q, ox: Q, oy: Q, t: Q) -> bool {
    &&& q_eq(ox, q_mul(q_neg(dy), t))
    &&& q_eq(oy, q_mul(dx, t))
    &&& q_le(q_int(0), t)
    &&& t.d > 0
}

/// The perpendicular scale `t` is exactly half the effective stroke
/// width over the floor square root `l` of the scaled squared segment
/// length — so the emitted stroke's thickness is pinned up to that
/// one-integer-wide root bracket.
pub open spec fn stroke_scale_ok(t: Q, sw: Q, dx_n: Q, dy_n: Q, l: int) -> bool {
    &&& 1 <= l
    &&& l * l <= seg_len_sq_scaled(dx_n, dy_n)
    &&& seg_len_sq_scaled(dx_n, dy_n) < (l + 1) * (l + 1)
    &&& q_eq(t, q_div(q_half(effective_stroke_width(sw)), Q { n: l, d: dx_n.d * dy_n.d }))
}

impl ShapeRenderable {
    /// A zero-length-safe stroked segment: the quad that widens the
    /// segment from the origin-anchored `(x1, y1)` to `(x2, y2)` by half
    /// the (clamped) stroke width on each side of the perpendicular.
    /// Degenerate (zero-length) input yields an empty buffer. The ghost
    /// result carries the half-offset `(ox, oy)` and its perpendicular
    /// scale `t`.
    /// A zero-length-safe stroked segment: the quad that widens the
    /// segment from the origin-anchored `(x1, y1)` to `(x2, y2)` by half
    /// the (clamped) stroke width on each side of the perpendicular.
    /// Degenerate (zero-length) input yields an empty buffer. The ghost
    /// result carries the half-offset `(ox, oy)` and its perpendicular
    /// scale `t`. Guaranteed to succeed on whole-pixel input.
    #[verifier::rlimit(100)]
    #[verifier::spinoff_prover]
    pub fn line_geometry(x1: Rat, y1: Rat, x2: Rat, y2: Rat, stroke_width: Rat) -> (r: Result<
        (Geometry, Ghost<(Q, Q, Q)>),
        GeometryError,
    >)
        requires
            rat_safe(x1),
            rat_safe(y1),
            rat_safe(x2),
            rat_safe(y2),
            rat_safe(stroke_width),
        ensures
            r matches Ok((g, o)) ==> {
                &&& g.drawing_mode == DrawingMode::Triangles
                &&& g.instance_count == 0
                &&& if q_eq(q_sub(x2@, x1@), q_int(0)) && q_eq(q_sub(y2@, y1@), q_int(0)) {
                    g.verts@.len() == 0 && g.vertex_count == 0
                } else {
                    &&& line_quad_ok(g.verts@, x1@, y1@, x2@, y2@, o@.0, o@.1)
                    &&& perp_offset_ok(q_sub(x2@, x1@), q_sub(y2@, y1@), o@.0, o@.1, o@.2)
                    &&& exists|l: int|
                        stroke_scale_ok(
                            o@.2,
                            stroke_width@,
                            q_norm(q_sub(x2@, x1@)),
                            q_norm(q_sub(y2@, y1@)),
                            l,
                        )
                    &&& g.vertex_count == 6
                }
            },
            q_pixel(x1@, 0x4000) && q_pixel(y1@, 0x4000) && q_pixel(x2@, 0x4000) && q_pixel(
                y2@,
                0x4000,
            ) && q_pixel(stroke_width@, 0x4000) ==> r is Ok,
    {
        let ghost pix = q_pixel(x1@, 0x4000) && q_pixel(y1@, 0x4000) && q_pixel(x2@, 0x4000)
            && q_pixel(y2@, 0x4000) && q_pixel(stroke_width@, 0x4000);
        proof {
            if pix {
                assert(-0x8000 <= q_sub(x2@, x1@).n <= 0x8000 && q_sub(x2@, x1@).d == 1
                    && -0x8000 <= q_sub(y2@, y1@).n <= 0x8000 && q_sub(y2@, y1@).d
                    == 1) by (nonlinear_arith)
                    requires
                        x1@.d == 1 && x2@.d == 1 && y1@.d == 1 && y2@.d == 1,
                        -0x4000 <= x1@.n <= 0x4000,
                        -0x4000 <= x2@.n <= 0x4000,
                        -0x4000 <= y1@.n <= 0x4000,
                        -0x4000 <= y2@.n <= 0x4000,
                ;
                lemma_q_norm_small(q_sub(x2@, x1@));
                lemma_q_norm_small(q_sub(y2@, y1@));
            }
        }
        let dx = match x2.checked_sub(x1) {
            Some(v) => v,
            None => return Err(GeometryError::Unrepresentable),
        };
        let dy = match y2.checked_sub(y1) {
            Some(v) => v,
            None => return Err(GeometryError::Unrepresentable),
        };
        let ghost dxq = q_sub(x2@, x1@);
        let ghost dyq = q_sub(y2@, y1@);
        proof {
            broadcast use vstd::arithmetic::mul::lemma_mul_nonzero;

            lemma_q_op_bounds(x2@, x1@, 0x4000, 0x4000, 0x4000, 0x4000);
            lemma_q_op_bounds(y2@, y1@, 0x4000, 0x4000, 0x4000, 0x4000);
            lemma_q_norm(dxq);
            lemma_q_norm(dyq);
            if pix {
                lemma_q_norm_int(dxq);
                lemma_q_norm_int(dyq);
            }
        }
        if dx.is_zero() && dy.is_zero() {
            proof {
                lemma_q_eq_trans(dxq, dx@, q_int(0));
                lemma_q_eq_trans(dyq, dy@, q_int(0));
            }
            let mut geometry = Geometry::new(DrawingMode::Triangles);
            geometry.add_buffer(Vec::new(), 2);
            return Ok((geometry, Ghost((q_int(0), q_int(0), q_int(0)))));
        }
        proof {
            if q_eq(dxq, q_int(0)) && q_eq(dyq, q_int(0)) {
                lemma_q_eq_trans(dx@, dxq, q_int(0));
                lemma_q_eq_trans(dy@, dyq, q_int(0));
                assert(dx.num == 0 && dy.num == 0);
            }
        }
        let (ox, oy, tg) = match stroke_offset(dx, dy, stroke_width) {
            Ok(v) => v,
            Err(e) => {
                proof {
                    if pix {
                        assert(false);
                    }
                }
                return Err(e);
            },
        };
        let ghost t = tg@;
        proof {
            broadcast use vstd::arithmetic::mul::lemma_mul_nonzero;

            // the half-offset is an exact perpendicular of the exact
            // segment vector
            lemma_q_neg_congr(dy@, dyq);
            lemma_q_mul_congr(q_neg(dy@), q_neg(dyq), t);
            lemma_q_eq_trans(ox@, q_mul(q_neg(dy@), t), q_mul(q_neg(dyq), t));
            lemma_q_mul_congr(dx@, dxq, t);
            lemma_q_eq_trans(oy@, q_mul(dx@, t), q_mul(dxq, t));
            assert(perp_offset_ok(dxq, dyq, ox@, oy@, t));
            if pix {
                lemma_q_op_bounds(x1@, ox@, 0x4000, 1, 0x2000_0000, 0x30000);
                lemma_q_op_bounds(y1@, oy@, 0x4000, 1, 0x2000_0000, 0x30000);
                lemma_q_op_bounds(x2@, ox@, 0x4000, 1, 0x2000_0000, 0x30000);
                lemma_q_op_bounds(y2@, oy@, 0x4000, 1, 0x2000_0000, 0x30000);
                lemma_q_norm_small(q_sub(x1@, ox@));
                lemma_q_norm_small(q_sub(y1@, oy@));
                lemma_q_norm_small(q_sub(x2@, ox@));
                lemma_q_norm_small(q_sub(y2@, oy@));
                lemma_q_norm_small(q_add(x2@, ox@));
                lemma_q_norm_small(q_add(y2@, oy@));
                lemma_q_norm_small(q_add(x1@, ox@));
                lemma_q_norm_small(q_add(y1@, oy@));
            }
        }
        let v0x = match x1.checked_sub(ox) {
            Some(v) => v,
            None => return Err(GeometryError::Unrepresentable),
        };
        let v0y = match y1.checked_sub(oy) {
            Some(v) => v,
            None => return Err(GeometryError::Unrepresentable),
        };
        let v1x = match x2.checked_sub(ox) {
            Some(v) => v,
            None => return Err(GeometryError::Unrepresentable),
        };
        let v1y = match y2.checked_sub(oy) {
            Some(v) => v,
            None => return Err(GeometryError::Unrepresentable),
        };
        let v2x = match x2.checked_add(ox) {
            Some(v) => v,
            None => return Err(GeometryError::Unrepresentable),
        };
        let v2y = match y2.checked_add(oy) {
            Some(v) => v,
            None => return Err(GeometryError::Unrepresentable),
        };
        let v3x = match x1.checked_add(ox) {
            Some(v) => v,
            None => return Err(GeometryError::Unrepresentable),
        };
        let v3y = match y1.checked_add(oy) {
            Some(v) => v,
            None => return Err(GeometryError::Unrepresentable),
        };
        let verts = vec![v0x, v0y, v1x, v1y, v2x, v2y, v2x, v2y, v3x, v3y, v0x, v0y];
        let mut geometry = Geometry::new(DrawingMode::Triangles);
        geometry.add_buffer(verts, 2);
        geometry.add_vertex_attribute(Attribute::new(0, 2, 2, 0));
        proof {
            assert(line_quad_ok(geometry.verts@, x1@, y1@, x2@, y2@, ox@, oy@));
            assert(exists|l: int|
                stroke_scale_ok(t, stroke_width@, q_norm(dxq), q_norm(dyq), l));
        }
        Ok((geometry, Ghost((ox@, oy@, t))))
    }
}

/// Everything the stroke offset promises: the exact perpendicularity of
/// `(ox, oy)` to `(dx, dy)` at nonnegative scale `t`, and `t` pinned to
/// half the effective width over the root bracket of the segment length.
pub open spec fn stroke_offset_ok(dx: Q, dy: Q, sw: Q, ox: Q, oy: Q, t: Q) -> bool {
    &&& q_eq(ox, q_mul(q_neg(dy), t))
    &&& q_eq(oy, q_mul(dx, t))
    &&& q_le(q_int(0), t)
    &&& t.d > 0
    &&& exists|l: int| stroke_scale_ok(t, sw, dx, dy, l)
}

/// The half-offset of a stroked segment: half the clamped stroke width
/// along the (approximately unit) left perpendicular of `(dx, dy)`. The
/// ghost result is the perpendicular scale `t`. Guaranteed to succeed on
/// whole-pixel segment vectors and widths.
#[verifier::rlimit(100)]
#[verifier::spinoff_prover]
fn stroke_offset(dx: Rat, dy: Rat, stroke_width: Rat) -> (r: Result<
    (Rat, Rat, Ghost<Q>),
    GeometryError,
>)
    requires
        -0x4000_0000 <= dx.num <= 0x4000_0000,
        0 < dx.den <= 0x4000_0000,
        -0x4000_0000 <= dy.num <= 0x4000_0000,
        0 < dy.den <= 0x4000_0000,
        rat_small(stroke_width),
        dx.num != 0 || dy.num != 0,
    ensures
        r matches Ok((ox, oy, t)) ==> stroke_offset_ok(dx@, dy@, stroke_width@, ox@, oy@, t@)
            && rat_small(ox) && rat_small(oy),
        dx.den == 1 && -0x8000 <= dx.num <= 0x8000 && dy.den == 1 && -0x8000 <= dy.num <= 0x8000
            && q_pixel(stroke_width@, 0x4000) ==> r is Ok,
        dx.den == 1 && -0x8000 <= dx.num <= 0x8000 && dy.den == 1 && -0x8000 <= dy.num <= 0x8000
            && q_pixel(stroke_width@, 0x4000) ==> (r matches Ok((ox, oy, t)) ==> {
            &&& -0x2000_0000 <= ox.num <= 0x2000_0000
            &&& 0 < ox.den <= 0x30000
            &&& -0x2000_0000 <= oy.num <= 0x2000_0000
            &&& 0 < oy.den <= 0x30000
        }),
{
    let ghost pix = dx.den == 1 && -0x8000 <= dx.num <= 0x8000 && dy.den == 1 && -0x8000
        <= dy.num <= 0x8000 && q_pixel(stroke_width@, 0x4000);
    let min_w = Rat::new(3, 2);
    let w = if stroke_width.lt(min_w) {
        min_w
    } else {
        stroke_width
    };
    let len = approx_len(dx, dy);
    proof {
        if pix {
            assert(w.den <= 2 && -0x4000 <= w.num && w.num <= 0x4000);
            lemma_q_op_bounds(w@, Q { n: 1, d: 2 }, 0x4000, 2, 1, 2);
            lemma_q_norm_small(q_mul(w@, Q { n: 1, d: 2 }));
        }
    }
    let h = match w.checked_mul(Rat::new(1, 2)) {
        Some(v) => v,
        None => return Err(GeometryError::Unrepresentable),
    };
    proof {
        if pix {
            lemma_q_norm(q_mul(w@, Q { n: 1, d: 2 }));
            assert(seg_len_sq_scaled(dx@, dy@) <= 0x8000_0000) by (nonlinear_arith)
                requires
                    dx@.d == 1,
                    dy@.d == 1,
                    -0x8000 <= dx@.n <= 0x8000,
                    -0x8000 <= dy@.n <= 0x8000,
            ;
            assert(len.num <= 0xC000) by (nonlinear_arith)
                requires
                    len.num * len.num <= 0x8000_0000,
                    len.num >= 0,
            ;
            lemma_q_op_bounds(h@, len@, 0x4000, 4, 0xC000, 1);
            lemma_q_norm_small(q_div(h@, len@));
        }
    }
    let t = match h.checked_div(len) {
        Some(v) => v,
        None => return Err(GeometryError::Unrepresentable),
    };
    proof {
        if pix {
            lemma_q_norm(q_div(h@, len@));
            lemma_q_op_bounds(q_neg(dy@), t@, 0x8000, 1, 0x4000, 0x30000);
            lemma_q_op_bounds(dx@, t@, 0x8000, 1, 0x4000, 0x30000);
            lemma_q_norm_small(q_mul(q_neg(dy@), t@));
            lemma_q_norm_small(q_mul(dx@, t@));
        }
    }
    let ox = match dy.neg().checked_mul(t) {
        Some(v) => v,
        None => return Err(GeometryError::Unrepresentable),
    };
    let oy = match dx.checked_mul(t) {
        Some(v) => v,
        None => return Err(GeometryError::Unrepresentable),
    };
    proof {
        broadcast use vstd::arithmetic::mul::lemma_mul_nonzero;

        if pix {
            lemma_q_norm(q_mul(q_neg(dy@), t@));
            lemma_q_norm(q_mul(dx@, t@));
        }
        // t is exactly half the effective width over the root bracket
        crate::rat::lemma_q_div_congr(h@, q_half(w@), len@);
        lemma_q_eq_trans(t@, q_div(h@, len@), q_div(q_half(w@), len@));
        assert(len@ == (Q { n: len.num as int, d: dx@.d * dy@.d }));
        assert(stroke_scale_ok(t@, stroke_width@, dx@, dy@, len.num as int));
        // the used width is positive, hence so are h and t
        assert(w.num > 0) by (nonlinear_arith)
            requires
                w@.d > 0,
                q_le(Q { n: 3, d: 2 }, w@),
        ;
        assert(q_mul(w@, Q { n: 1, d: 2 }).n > 0 && q_mul(w@, Q { n: 1, d: 2 }).d
            > 0) by (nonlinear_arith)
            requires
                w@.n > 0,
                w@.d > 0,
        ;
        crate::rat::lemma_q_eq_pos(h@, q_mul(w@, Q { n: 1, d: 2 }));
        assert(q_le(q_int(0), t@)) by (nonlinear_arith)
            requires
                t@.d > 0,
                q_eq(t@, q_div(h@, len@)),
                h@.n > 0,
                h@.d > 0,
                len@.n >= 1,
                len@.d > 0,
        ;
        assert(stroke_offset_ok(dx@, dy@, stroke_width@, ox@, oy@, t@));
    }
    Ok((ox, oy, Ghost(t@)))
}

/// What was emitted at one interior joint of a polyline.
pub ghost enum Join {
    /// Collinear directions: no join geometry at all.
    Straight,
    /// A turn: one bevel triangle on the outer side.
    Bevel,
    /// A turn whose miter point lies within the miter limit: the bevel
    /// triangle plus the miter triangle through the recorded point
    /// `(mx, my)`, whose squared distance from the joint is `d2`, within
    /// the limit `lim`.
    Miter { mx: Q, my: Q, d2: Q, lim: Q },
}

/// Components contributed by one joint's join geometry.
pub open spec fn join_comps(j: Join) -> int {
    match j {
        Join::Straight => 0,
        Join::Bevel => 6,
        Join::Miter { .. } => 12,
    }
}

/// Components contributed by all joints.
pub open spec fn joins_comps(js: Seq<Join>) -> int
    decreases js.len(),
{
    if js.len() == 0 {
        0
    } else {
        joins_comps(js.drop_last()) + join_comps(js.last())
    }
}

/// The ghost build record of a polyline: the decision at every joint,
/// the per-segment stroke offsets, the joint-side offsets of the
/// outgoing segments, and where in the component stream each segment
/// quad and join triangle was emitted.
pub ghost struct PolylineTrace {
    pub joins: Seq<Join>,
    pub offsets: Seq<(Q, Q, Q)>,
    pub seg_bases: Seq<int>,
    pub join_offsets: Seq<(Q, Q, Q)>,
    pub join_bases: Seq<int>,
}

/// The twelve components starting at `base` are the two triangles of the
/// quad `a +- n`, `b +- n`, in emission order.
#[verifier::opaque]
pub open spec fn seg_quad_ok(
    vs: Seq<Rat>,
    base: int,
    ax: Q,
    ay: Q,
    bx: Q,
    by: Q,
    nx: Q,
    ny: Q,
) -> bool {
    &&& 0 <= base
    &&& base + 12 <= vs.len()
    &&& q_eq(vs[base]@, q_add(ax, nx)) && q_eq(vs[base + 1]@, q_add(ay, ny))
    &&& q_eq(vs[base + 2]@, q_sub(ax, nx)) && q_eq(vs[base + 3]@, q_sub(ay, ny))
    &&& q_eq(vs[base + 4]@, q_add(bx, nx)) && q_eq(vs[base + 5]@, q_add(by, ny))
    &&& vs[base + 6] == vs[base + 2] && vs[base + 7] == vs[base + 3]
    &&& vs[base + 8] == vs[base + 4] && vs[base + 9] == vs[base + 5]
    &&& q_eq(vs[base + 10]@, q_sub(bx, nx)) && q_eq(vs[base + 11]@, q_sub(by, ny))
}

/// A segment's recorded offset `(ox, oy)` at scale `ts` is an exact
/// perpendicular of the exact segment vector, at the pinned
/// half-width-over-length scale.
pub open spec fn seg_offset_ok(ax: Q, ay: Q, bx: Q, by: Q, sw: Q, ox: Q, oy: Q, ts: Q) -> bool {
    &&& perp_offset_ok(q_sub(bx, ax), q_sub(by, ay), ox, oy, ts)
    &&& exists|l: int|
        stroke_scale_ok(ts, sw, q_norm(q_sub(bx, ax)), q_norm(q_sub(by, ay)), l)
}

/// The six components starting at `base` are the bevel triangle of a
/// joint: the joint itself, then its two stroke corners on the outer
/// side picked by the turn direction (`b + n` for a negative cross,
/// `b - n` for a positive one).
pub open spec fn bevel_tri_ok(
    vs: Seq<Rat>,
    base: int,
    cross: Q,
    bv: (Rat, Rat),
    n1: (Q, Q),
    n2: (Q, Q),
) -> bool {
    &&& 0 <= base
    &&& base + 6 <= vs.len()
    &&& vs[base] == bv.0 && vs[base + 1] == bv.1
    &&& if q_lt(cross, q_int(0)) {
        &&& q_eq(vs[base + 2]@, q_add(bv.0@, n1.0)) && q_eq(vs[base + 3]@, q_add(bv.1@, n1.1))
        &&& q_eq(vs[base + 4]@, q_add(bv.0@, n2.0)) && q_eq(vs[base + 5]@, q_add(bv.1@, n2.1))
    } else {
        &&& q_eq(vs[base + 2]@, q_sub(bv.0@, n1.0)) && q_eq(vs[base + 3]@, q_sub(bv.1@, n1.1))
        &&& q_eq(vs[base + 4]@, q_sub(bv.0@, n2.0)) && q_eq(vs[base + 5]@, q_sub(bv.1@, n2.1))
    }
}

/// The six components starting at `base` are the miter triangle: the
/// recorded miter point, then the same two outer stroke corners as the
/// bevel.
pub open spec fn miter_tri_ok(
    vs: Seq<Rat>,
    base: int,
    cross: Q,
    bv: (Rat, Rat),
    n1: (Q, Q),
    n2: (Q, Q),
    mx: Q,
    my: Q,
) -> bool {
    &&& 0 <= base
    &&& base + 6 <= vs.len()
    &&& q_eq(vs[base]@, mx) && q_eq(vs[base + 1]@, my)
    &&& if q_lt(cross, q_int(0)) {
        &&& q_eq(vs[base + 2]@, q_add(bv.0@, n1.0)) && q_eq(vs[base + 3]@, q_add(bv.1@, n1.1))
        &&& q_eq(vs[base + 4]@, q_add(bv.0@, n2.0)) && q_eq(vs[base + 5]@, q_add(bv.1@, n2.1))
    } else {
        &&& q_eq(vs[base + 2]@, q_sub(bv.0@, n1.0)) && q_eq(vs[base + 3]@, q_sub(bv.1@, n1.1))
        &&& q_eq(vs[base + 4]@, q_sub(bv.0@, n2.0)) && q_eq(vs[base + 5]@, q_sub(bv.1@, n2.1))
    }
}

/// The geometry a joint's decision emitted, starting at `base`: nothing
/// for a straight joint, the bevel triangle for a bevel, the bevel plus
/// the miter triangle for a miter.
#[verifier::opaque]
pub open spec fn join_geom_ok(
    vs: Seq<Rat>,
    base: int,
    j: Join,
    cross: Q,
    bv: (Rat, Rat),
    n1: (Q, Q),
    n2: (Q, Q),
) -> bool {
    match j {
        Join::Straight => true,
        Join::Bevel => bevel_tri_ok(vs, base, cross, bv, n1, n2),
        Join::Miter { mx, my, d2, lim } => bevel_tri_ok(vs, base, cross, bv, n1, n2)
            && miter_tri_ok(vs, base + 6, cross, bv, n1, n2, mx, my),
    }
}

/// A segment quad stays pinned when the component stream grows.
proof fn lemma_seg_quad_grow(
    vs: Seq<Rat>,
    ext: Seq<Rat>,
    base: int,
    ax: Q,
    ay: Q,
    bx: Q,
    by: Q,
    nx: Q,
    ny: Q,
)
    requires
        seg_quad_ok(vs, base, ax, ay, bx, by, nx, ny),
        vs.len() <= ext.len(),
        forall|i: int| 0 <= i < vs.len() ==> ext[i] == vs[i],
    ensures
        seg_quad_ok(ext, base, ax, ay, bx, by, nx, ny),
{
    reveal(seg_quad_ok);
}

/// A joint's triangles stay pinned when the component stream grows.
proof fn lemma_join_geom_grow(
    vs: Seq<Rat>,
    ext: Seq<Rat>,
    base: int,
    j: Join,
    cross: Q,
    bv: (Rat, Rat),
    n1: (Q, Q),
    n2: (Q, Q),
)
    requires
        join_geom_ok(vs, base, j, cross, bv, n1, n2),
        vs.len() <= ext.len(),
        forall|i: int| 0 <= i < vs.len() ==> ext[i] == vs[i],
    ensures
        join_geom_ok(ext, base, j, cross, bv, n1, n2),
{
    reveal(join_geom_ok);
}

/// The signed cross product of the two segment directions meeting at
/// joint `k`: zero means collinear, the sign picks the turn side.
pub open spec fn cross_at(pts: Seq<(Rat, Rat)>, k: int) -> Q
    recommends
        0 <= k,
        k + 2 < pts.len(),
{
    let abx = q_sub(pts[k + 1].0@, pts[k].0@);
    let aby = q_sub(pts[k + 1].1@, pts[k].1@);
    let bcx = q_sub(pts[k + 2].0@, pts[k + 1].0@);
    let bcy = q_sub(pts[k + 2].1@, pts[k + 1].1@);
    q_sub(q_mul(abx, bcy), q_mul(aby, bcx))
}

/// The squared distance from `(mx, my)` to `(bx, by)`.
pub open spec fn dist_sq(mx: Q, my: Q, bx: Q, by: Q) -> Q {
    q_add(q_mul(q_sub(mx, bx), q_sub(mx, bx)), q_mul(q_sub(my, by), q_sub(my, by)))
}

/// The largest accepted squared distance of a miter point from its
/// joint: `(strokeWidth * miterLimit / 2)^2` with a miter limit of 4,
/// i.e. `4 * strokeWidth^2`.
pub open spec fn miter_limit_sq(w: Q) -> Q {
    q_mul(q_mul(w, w), q_int(4))
}

/// Every point of the polyline is within the guaranteed-exact range.
pub open spec fn points_safe(pts: Seq<(Rat, Rat)>) -> bool {
    forall|i: int| 0 <= i < pts.len() ==> rat_safe((#[trigger] pts[i]).0) && rat_safe(pts[i].1)
}

/// Every point has components within the stored bound.
pub open spec fn points_small(pts: Seq<(Rat, Rat)>) -> bool {
    forall|i: int| 0 <= i < pts.len() ==> rat_small((#[trigger] pts[i]).0) && rat_small(pts[i].1)
}

/// Every point is a whole number of pixels within the stated range; on
/// such input the stroke builders are proved to succeed.
pub open spec fn points_pixel(pts: Seq<(Rat, Rat)>) -> bool {
    forall|i: int|
        0 <= i < pts.len() ==> q_pixel((#[trigger] pts[i]).0@, 0x4000) && q_pixel(
            pts[i].1@,
            0x4000,
        )
}

/// No zero-length segment: consecutive points differ, exactly.
pub open spec fn no_duplicate_neighbors(pts: Seq<(Rat, Rat)>) -> bool {
    forall|i: int|
        0 <= i < pts.len() - 1 ==> !(q_eq(#[trigger] pts[i].0@, pts[i + 1].0@) && q_eq(
            pts[i].1@,
            pts[i + 1].1@,
        ))
}

/// Unwrap a checked-arithmetic result or report the build as
/// unrepresentable.
fn need(o: Option<Rat>) -> (r: Result<Rat, GeometryError>)
    ensures
        r matches Ok(v) ==> o == Some(v),
        r is Err ==> o is None,
{
    match o {
        Some(v) => Ok(v),
        None => Err(GeometryError::Unrepresentable),
    }
}

/// The two stroke corners of a point: `p + n` and `p - n`, by checked
/// arithmetic. Guaranteed to succeed for whole-pixel points and offsets
/// within the stroke-offset output range.
fn corner_pair(p: (Rat, Rat), nx: Rat, ny: Rat) -> (r: Result<(Rat, Rat, Rat, Rat),
    GeometryError>)
    requires
        rat_small(p.0),
        rat_small(p.1),
        rat_small(nx),
        rat_small(ny),
    ensures
        r matches Ok((p1x, p1y, p2x, p2y)) ==> {
            &&& q_eq(p1x@, q_add(p.0@, nx@))
            &&& q_eq(p1y@, q_add(p.1@, ny@))
            &&& q_eq(p2x@, q_sub(p.0@, nx@))
            &&& q_eq(p2y@, q_sub(p.1@, ny@))
            &&& rat_small(p1x) && rat_small(p1y) && rat_small(p2x) && rat_small(p2y)
        },
        q_pixel(p.0@, 0x4000) && q_pixel(p.1@, 0x4000) && -0x2000_0000 <= nx.num <= 0x2000_0000
            && 0 < nx.den <= 0x30000 && -0x2000_0000 <= ny.num <= 0x2000_0000 && 0 < ny.den
            <= 0x30000 ==> r is Ok,
{
    let ghost pixish = q_pixel(p.0@, 0x4000) && q_pixel(p.1@, 0x4000) && -0x2000_0000 <= nx.num
        <= 0x2000_0000 && 0 < nx.den <= 0x30000 && -0x2000_0000 <= ny.num <= 0x2000_0000 && 0
        < ny.den <= 0x30000;
    proof {
        if pixish {
            lemma_q_op_bounds(p.0@, nx@, 0x4000, 1, 0x2000_0000, 0x30000);
            lemma_q_op_bounds(p.1@, ny@, 0x4000, 1, 0x2000_0000, 0x30000);
            lemma_q_norm_small(q_add(p.0@, nx@));
            lemma_q_norm_small(q_sub(p.0@, nx@));
            lemma_q_norm_small(q_add(p.1@, ny@));
            lemma_q_norm_small(q_sub(p.1@, ny@));
        }
    }
    let p1x = match p.0.checked_add(nx) {
        Some(v) => v,
        None => return Err(GeometryError::Unrepresentable),
    };
    let p1y = match p.1.checked_add(ny) {
        Some(v) => v,
        None => return Err(GeometryError::Unrepresentable),
    };
    let p2x = match p.0.checked_sub(nx) {
        Some(v) => v,
        None => return Err(GeometryError::Unrepresentable),
    };
    let p2y = match p.1.checked_sub(ny) {
        Some(v) => v,
        None => return Err(GeometryError::Unrepresentable),
    };
    Ok((p1x, p1y, p2x, p2y))
}

/// Append one segment quad: the two triangles of `a +- n`, `b +- n`.
fn push_seg_quad(
    verts: &mut Vec<Rat>,
    a1x: Rat,
    a1y: Rat,
    a2x: Rat,
    a2y: Rat,
    b1x: Rat,
    b1y: Rat,
    b2x: Rat,
    b2y: Rat,
    a: ((Rat, Rat), (Rat, Rat)),
    n: Ghost<(Q, Q)>,
)
    requires
        q_eq(a1x@, q_add(a.0.0@, n@.0)),
        q_eq(a1y@, q_add(a.0.1@, n@.1)),
        q_eq(a2x@, q_sub(a.0.0@, n@.0)),
        q_eq(a2y@, q_sub(a.0.1@, n@.1)),
        q_eq(b1x@, q_add(a.1.0@, n@.0)),
        q_eq(b1y@, q_add(a.1.1@, n@.1)),
        q_eq(b2x@, q_sub(a.1.0@, n@.0)),
        q_eq(b2y@, q_sub(a.1.1@, n@.1)),
    ensures
        final(verts)@.len() == old(verts)@.len() + 12,
        forall|i: int| 0 <= i < old(verts)@.len() ==> final(verts)@[i] == old(verts)@[i],
        seg_quad_ok(
            final(verts)@,
            old(verts)@.len() as int,
            a.0.0@,
            a.0.1@,
            a.1.0@,
            a.1.1@,
            n@.0,
            n@.1,
        ),
{
    let ghost base = verts@.len() as int;
    verts.push(a1x);
    verts.push(a1y);
    verts.push(a2x);
    verts.push(a2y);
    verts.push(b1x);
    verts.push(b1y);
    verts.push(a2x);
    verts.push(a2y);
    verts.push(b1x);
    verts.push(b1y);
    verts.push(b2x);
    verts.push(b2y);
    proof {
        reveal(seg_quad_ok);
        assert(verts@[base] == a1x && verts@[base + 1] == a1y);
        assert(verts@[base + 2] == a2x && verts@[base + 3] == a2y);
        assert(verts@[base + 4] == b1x && verts@[base + 5] == b1y);
        assert(verts@[base + 6] == a2x && verts@[base + 7] == a2y);
        assert(verts@[base + 8] == b1x && verts@[base + 9] == b1y);
        assert(verts@[base + 10] == b2x && verts@[base + 11] == b2y);
    }
}

/// Append one join triangle: the joint `bv` and the two outer stroke
/// corners, given as already-computed vertices.
fn push_join_tri(verts: &mut Vec<Rat>, v0x: Rat, v0y: Rat, p1x: Rat, p1y: Rat, p2x: Rat, p2y: Rat)
    ensures
        final(verts)@.len() == old(verts)@.len() + 6,
        forall|i: int| 0 <= i < old(verts)@.len() ==> final(verts)@[i] == old(verts)@[i],
        final(verts)@[old(verts)@.len() as int] == v0x,
        final(verts)@[old(verts)@.len() as int + 1] == v0y,
        final(verts)@[old(verts)@.len() as int + 2] == p1x,
        final(verts)@[old(verts)@.len() as int + 3] == p1y,
        final(verts)@[old(verts)@.len() as int + 4] == p2x,
        final(verts)@[old(verts)@.len() as int + 5] == p2y,
{
    verts.push(v0x);
    verts.push(v0y);
    verts.push(p1x);
    verts.push(p1y);
    verts.push(p2x);
    verts.push(p2y);
}

/// Emit the join geometry of the interior joint `k` (between the
/// segments `k` and `k+1`): nothing when the directions are collinear,
/// otherwise the bevel triangle and, when the exact miter point is
/// representable and within the miter limit, the miter triangle. The
/// ghost record carries the decision, the outgoing segment's offset and
/// where the triangles were emitted. Guaranteed to succeed on
/// whole-pixel input.
#[verifier::rlimit(100)]
#[verifier::spinoff_prover]
fn emit_joint(
    verts: &mut Vec<Rat>,
    points: &[(Rat, Rat)],
    k: usize,
    stroke_width: Rat,
    lim: Rat,
    abx: Rat,
    aby: Rat,
    a1x: Rat,
    a1y: Rat,
    a2x: Rat,
    a2y: Rat,
    b1x: Rat,
    b1y: Rat,
    b2x: Rat,
    b2y: Rat,
    n1: Ghost<(Q, Q)>,
) -> (r: Result<Ghost<(Join, (Q, Q, Q), int)>, GeometryError>)
    requires
        k + 2 < points@.len(),
        points_safe(points@),
        no_duplicate_neighbors(points@),
        rat_safe(stroke_width),
        rat_small(lim),
        q_eq(lim@, miter_limit_sq(stroke_width@)),
        rat_small(abx),
        rat_small(aby),
        rat_small(a1x),
        rat_small(a1y),
        rat_small(a2x),
        rat_small(a2y),
        rat_small(b1x),
        rat_small(b1y),
        rat_small(b2x),
        rat_small(b2y),
        abx@ == q_norm(q_sub(points@[k as int + 1].0@, points@[k as int].0@)),
        aby@ == q_norm(q_sub(points@[k as int + 1].1@, points@[k as int].1@)),
        q_eq(a1x@, q_add(points@[k as int].0@, n1@.0)),
        q_eq(a1y@, q_add(points@[k as int].1@, n1@.1)),
        q_eq(a2x@, q_sub(points@[k as int].0@, n1@.0)),
        q_eq(a2y@, q_sub(points@[k as int].1@, n1@.1)),
        q_eq(b1x@, q_add(points@[k as int + 1].0@, n1@.0)),
        q_eq(b1y@, q_add(points@[k as int + 1].1@, n1@.1)),
        q_eq(b2x@, q_sub(points@[k as int + 1].0@, n1@.0)),
        q_eq(b2y@, q_sub(points@[k as int + 1].1@, n1@.1)),
    ensures
        r matches Ok(rec) ==> {
            &&& joint_decision_ok(points@, stroke_width, rec@.0, k as int)
            &&& final(verts)@.len() == old(verts)@.len() + join_comps(rec@.0)
            &&& forall|i: int| 0 <= i < old(verts)@.len() ==> final(verts)@[i] == old(verts)@[i]
            &&& !(rec@.0 is Straight) ==> {
                &&& rec@.2 == old(verts)@.len() as int
                &&& join_geom_ok(
                    final(verts)@,
                    rec@.2,
                    rec@.0,
                    cross_at(points@, k as int),
                    points@[k as int + 1],
                    n1@,
                    (rec@.1.0, rec@.1.1),
                )
                &&& seg_offset_ok(
                    points@[k as int + 1].0@,
                    points@[k as int + 1].1@,
                    points@[k as int + 2].0@,
                    points@[k as int + 2].1@,
                    stroke_width@,
                    rec@.1.0,
                    rec@.1.1,
                    rec@.1.2,
                )
            }
        },
        points_pixel(points@) && q_pixel(stroke_width@, 0x4000) ==> r is Ok,
{
    let nlen = points.len();
    let b = points[k + 1];
    let ghost abxq = q_sub(points@[k as int + 1].0@, points@[k as int].0@);
    let ghost abyq = q_sub(points@[k as int + 1].1@, points@[k as int].1@);
    let ghost pix = points_pixel(points@) && q_pixel(stroke_width@, 0x4000);
    proof {
        broadcast use vstd::arithmetic::mul::lemma_mul_nonzero;

        assert(rat_safe(points@[k as int].0) && rat_safe(points@[k as int].1));
        assert(rat_safe(points@[k as int + 1].0) && rat_safe(points@[k as int + 1].1));
        assert(abxq.d > 0 && abyq.d > 0) by (nonlinear_arith)
            requires
                points@[k as int].0@.d > 0,
                points@[k as int].1@.d > 0,
                points@[k as int + 1].0@.d > 0,
                points@[k as int + 1].1@.d > 0,
                abxq == q_sub(points@[k as int + 1].0@, points@[k as int].0@),
                abyq == q_sub(points@[k as int + 1].1@, points@[k as int].1@),
        ;
        lemma_q_norm(abxq);
        lemma_q_norm(abyq);
        if pix {
            assert(q_pixel(points@[k as int].0@, 0x4000) && q_pixel(
                points@[k as int].1@,
                0x4000,
            ));
            assert(q_pixel(points@[k as int + 1].0@, 0x4000) && q_pixel(
                points@[k as int + 1].1@,
                0x4000,
            ));
            assert(abxq.d == 1 && -0x8000 <= abxq.n <= 0x8000 && abyq.d == 1 && -0x8000
                <= abyq.n <= 0x8000) by (nonlinear_arith)
                requires
                    points@[k as int].0@.d == 1,
                    points@[k as int].1@.d == 1,
                    points@[k as int + 1].0@.d == 1,
                    points@[k as int + 1].1@.d == 1,
                    -0x4000 <= points@[k as int].0@.n <= 0x4000,
                    -0x4000 <= points@[k as int].1@.n <= 0x4000,
                    -0x4000 <= points@[k as int + 1].0@.n <= 0x4000,
                    -0x4000 <= points@[k as int + 1].1@.n <= 0x4000,
                    abxq == q_sub(points@[k as int + 1].0@, points@[k as int].0@),
                    abyq == q_sub(points@[k as int + 1].1@, points@[k as int].1@),
            ;
            lemma_q_norm_int(abxq);
            lemma_q_norm_int(abyq);
        }
    }
    let ghost mut rec: (Join, (Q, Q, Q), int) = (
        Join::Straight,
        (q_int(0), q_int(0), q_int(0)),
        0int,
    );
            let c = points[k + 2];
            proof {
                if pix {
                    assert(q_pixel(points@[k as int + 2].0@, 0x4000) && q_pixel(
                        points@[k as int + 2].1@,
                        0x4000,
                    ));
                    lemma_q_op_bounds(c.0@, b.0@, 0x4000, 1, 0x4000, 1);
                    lemma_q_op_bounds(c.1@, b.1@, 0x4000, 1, 0x4000, 1);
                    lemma_q_norm_small(q_sub(c.0@, b.0@));
                    lemma_q_norm_small(q_sub(c.1@, b.1@));
                }
            }
            let bcx = need(c.0.checked_sub(b.0))?;
            let bcy = need(c.1.checked_sub(b.1))?;
            proof {
                broadcast use vstd::arithmetic::mul::lemma_mul_nonzero;

                lemma_q_op_bounds(c.0@, b.0@, 0x4000, 0x4000, 0x4000, 0x4000);
                lemma_q_op_bounds(c.1@, b.1@, 0x4000, 0x4000, 0x4000, 0x4000);
                lemma_q_norm(q_sub(c.0@, b.0@));
                lemma_q_norm(q_sub(c.1@, b.1@));
                if pix {
                    lemma_q_norm_int(q_sub(c.0@, b.0@));
                    lemma_q_norm_int(q_sub(c.1@, b.1@));
                    lemma_q_op_bounds(abx@, bcy@, 0x8000, 1, 0x8000, 1);
                    lemma_q_op_bounds(aby@, bcx@, 0x8000, 1, 0x8000, 1);
                    lemma_q_norm_small(q_mul(abx@, bcy@));
                    lemma_q_norm_small(q_mul(aby@, bcx@));
                }
            }
            let t1 = need(abx.checked_mul(bcy))?;
            let t2 = need(aby.checked_mul(bcx))?;
            proof {
                if pix {
                    lemma_q_norm_int(q_mul(abx@, bcy@));
                    lemma_q_norm_int(q_mul(aby@, bcx@));
                    lemma_q_op_bounds(t1@, t2@, 0x4000_0000, 1, 0x4000_0000, 1);
                    lemma_q_norm_small(q_sub(t1@, t2@));
                }
            }
            let z = need(t1.checked_sub(t2))?;
            let ghost bcxq = q_sub(points@[k as int + 2].0@, points@[k as int + 1].0@);
            let ghost bcyq = q_sub(points@[k as int + 2].1@, points@[k as int + 1].1@);
            proof {
                broadcast use vstd::arithmetic::mul::lemma_mul_nonzero;

                // z ~ the exact cross product at this joint
                lemma_q_mul_congr(abx@, abxq, bcy@);
                lemma_q_eq_trans(t1@, q_mul(abx@, bcy@), q_mul(abxq, bcy@));
                lemma_q_mul_congr_right(abxq, bcy@, bcyq);
                lemma_q_eq_trans(t1@, q_mul(abxq, bcy@), q_mul(abxq, bcyq));
                lemma_q_mul_congr(aby@, abyq, bcx@);
                lemma_q_eq_trans(t2@, q_mul(aby@, bcx@), q_mul(abyq, bcx@));
                lemma_q_mul_congr_right(abyq, bcx@, bcxq);
                lemma_q_eq_trans(t2@, q_mul(abyq, bcx@), q_mul(abyq, bcxq));
                lemma_q_sub_congr(t1@, q_mul(abxq, bcyq), t2@);
                lemma_q_eq_trans(z@, q_sub(t1@, t2@), q_sub(q_mul(abxq, bcyq), t2@));
                lemma_q_sub_congr_right(q_mul(abxq, bcyq), t2@, q_mul(abyq, bcxq));
                lemma_q_eq_trans(
                    z@,
                    q_sub(q_mul(abxq, bcyq), t2@),
                    cross_at(points@, k as int),
                );
            }
            if z.is_zero() {
                proof {
                    lemma_q_eq_trans(cross_at(points@, k as int), z@, q_int(0));
                    rec = (Join::Straight, (q_int(0), q_int(0), q_int(0)), verts@.len() as int);
                    assert(joint_decision_ok(points@, stroke_width, rec.0, k as int));
                }
            } else {
                proof {
                    if bcx.num == 0 && bcy.num == 0 {
                        lemma_q_eq_trans(bcxq, bcx@, q_int(0));
                        lemma_q_eq_trans(bcyq, bcy@, q_int(0));
                        assert(q_eq(points@[k as int + 1].0@, points@[k as int + 2].0@));
                        assert(q_eq(points@[k as int + 1].1@, points@[k as int + 2].1@));
                        assert(false);
                    }
                }
                let (n2x, n2y, t2g) = match stroke_offset(bcx, bcy, stroke_width) {
                    Ok(v) => v,
                    Err(e) => {
                        proof {
                            if pix {
                                assert(false);
                            }
                        }
                        return Err(e);
                    },
                };
                let ghost t2n = t2g@;
                proof {
                    broadcast use vstd::arithmetic::mul::lemma_mul_nonzero;

                    lemma_q_neg_congr(bcy@, bcyq);
                    lemma_q_mul_congr(q_neg(bcy@), q_neg(bcyq), t2n);
                    lemma_q_eq_trans(n2x@, q_mul(q_neg(bcy@), t2n), q_mul(q_neg(bcyq), t2n));
                    lemma_q_mul_congr(bcx@, bcxq, t2n);
                    lemma_q_eq_trans(n2y@, q_mul(bcx@, t2n), q_mul(bcxq, t2n));
                    assert(bcx@ == q_norm(bcxq) && bcy@ == q_norm(bcyq));
                    let lw2 = choose|l: int|
                        stroke_scale_ok(t2n, stroke_width@, bcx@, bcy@, l);
                    assert(stroke_scale_ok(t2n, stroke_width@, bcx@, bcy@, lw2));
                    assert(stroke_scale_ok(
                        t2n,
                        stroke_width@,
                        q_norm(q_sub(points@[k as int + 2].0@, points@[k as int + 1].0@)),
                        q_norm(q_sub(points@[k as int + 2].1@, points@[k as int + 1].1@)),
                        lw2,
                    ));
                    assert(perp_offset_ok(bcxq, bcyq, n2x@, n2y@, t2n));
                    assert(seg_offset_ok(
                        points@[k as int + 1].0@,
                        points@[k as int + 1].1@,
                        points@[k as int + 2].0@,
                        points@[k as int + 2].1@,
                        stroke_width@,
                        n2x@,
                        n2y@,
                        t2n,
                    ));
                }
                let (b3x, b3y, b4x, b4y) = match corner_pair(b, n2x, n2y) {
                    Ok(v) => v,
                    Err(e) => {
                        proof {
                            if pix {
                                assert(false);
                            }
                        }
                        return Err(e);
                    },
                };
                let neg_turn = z.is_negative();
                proof {
                    assert(cross_at(points@, k as int).d > 0) by (nonlinear_arith)
                        requires
                            abxq.d > 0,
                            abyq.d > 0,
                            bcxq.d > 0,
                            bcyq.d > 0,
                            cross_at(points@, k as int) == q_sub(
                                q_mul(abxq, bcyq),
                                q_mul(abyq, bcxq),
                            ),
                    ;
                    lemma_q_eq_sign(z@, cross_at(points@, k as int));
                }
                let ghost jbase = verts@.len() as int;
                let ghost verts1 = verts@;
                if neg_turn {
                    push_join_tri(verts, b.0, b.1, b1x, b1y, b3x, b3y);
                } else {
                    push_join_tri(verts, b.0, b.1, b2x, b2y, b4x, b4y);
                }
                let (ajx, ajy, bjx, bjy) = if neg_turn {
                    (a1x, a1y, b3x, b3y)
                } else {
                    (a2x, a2y, b4x, b4y)
                };
                let cand = miter_candidate(abx, aby, bcx, bcy, z, ajx, ajy, bjx, bjy, b.0, b.1);
                let mut miter_done = false;
                match cand {
                    Some((mxv, myv, dist2)) => {
                        if dist2.le(lim) {
                            if neg_turn {
                                push_join_tri(verts, mxv, myv, b1x, b1y, b3x, b3y);
                            } else {
                                push_join_tri(verts, mxv, myv, b2x, b2y, b4x, b4y);
                            }
                            miter_done = true;
                            proof {
                                rec = (
                                    Join::Miter { mx: mxv@, my: myv@, d2: dist2@, lim: lim@ },
                                    (n2x@, n2y@, t2n),
                                    jbase,
                                );
                                if q_eq(cross_at(points@, k as int), q_int(0)) {
                                    lemma_q_eq_trans(
                                        z@,
                                        cross_at(points@, k as int),
                                        q_int(0),
                                    );
                                }
                                assert(joint_decision_ok(points@, stroke_width, rec.0, k as int));
                                assert(verts@[jbase] == b.0 && verts@[jbase + 1] == b.1);
                                reveal(join_geom_ok);
                                assert(join_geom_ok(
                                    verts@,
                                    jbase,
                                    rec.0,
                                    cross_at(points@, k as int),
                                    points@[k as int + 1],
                                    n1@,
                                    (n2x@, n2y@),
                                ));
                            }
                        }
                    },
                    None => {
                    },
                }
                if !miter_done {
                    // beyond the miter limit, or the exact miter point
                    // is not representable: the bevel stands alone
                    proof {
                        rec = (Join::Bevel, (n2x@, n2y@, t2n), jbase);
                        if q_eq(cross_at(points@, k as int), q_int(0)) {
                            lemma_q_eq_trans(z@, cross_at(points@, k as int), q_int(0));
                        }
                        assert(joint_decision_ok(points@, stroke_width, rec.0, k as int));
                        assert(verts@[jbase] == b.0 && verts@[jbase + 1] == b.1);
                        reveal(join_geom_ok);
                        assert(join_geom_ok(
                            verts@,
                            jbase,
                            rec.0,
                            cross_at(points@, k as int),
                            points@[k as int + 1],
                            n1@,
                            (n2x@, n2y@),
                        ));
                    }
                }
            }
    Ok(Ghost(rec))
}

/// The direction and stroke offset of segment `k`: the normalized
/// segment vector, the half-stroke perpendicular offset and its ghost
/// scale, proved an exact perpendicular at the pinned scale. Guaranteed
/// to succeed on whole-pixel input, with the offset components then
/// bounded for the corner arithmetic.
#[verifier::rlimit(100)]
#[verifier::spinoff_prover]
fn seg_setup(points: &[(Rat, Rat)], k: usize, stroke_width: Rat) -> (r: Result<
    (Rat, Rat, Rat, Rat, Ghost<Q>),
    GeometryError,
>)
    requires
        k + 1 < points@.len(),
        points_safe(points@),
        no_duplicate_neighbors(points@),
        rat_safe(stroke_width),
    ensures
        r matches Ok((abx, aby, nx, ny, t)) ==> {
            &&& rat_small(abx) && rat_small(aby) && rat_small(nx) && rat_small(ny)
            &&& abx@ == q_norm(q_sub(points@[k as int + 1].0@, points@[k as int].0@))
            &&& aby@ == q_norm(q_sub(points@[k as int + 1].1@, points@[k as int].1@))
            &&& seg_offset_ok(
                points@[k as int].0@,
                points@[k as int].1@,
                points@[k as int + 1].0@,
                points@[k as int + 1].1@,
                stroke_width@,
                nx@,
                ny@,
                t@,
            )
        },
        points_pixel(points@) && q_pixel(stroke_width@, 0x4000) ==> r is Ok,
        points_pixel(points@) && q_pixel(stroke_width@, 0x4000) ==> (r matches Ok(
            (abx, aby, nx, ny, t),
        ) ==> {
            &&& -0x2000_0000 <= nx.num <= 0x2000_0000
            &&& 0 < nx.den <= 0x30000
            &&& -0x2000_0000 <= ny.num <= 0x2000_0000
            &&& 0 < ny.den <= 0x30000
        }),
{
    let a = points[k];
    let b = points[k + 1];
    let ghost pix = points_pixel(points@) && q_pixel(stroke_width@, 0x4000);
    proof {
        if pix {
            assert(q_pixel(points@[k as int].0@, 0x4000) && q_pixel(
                points@[k as int].1@,
                0x4000,
            ));
            assert(q_pixel(points@[k as int + 1].0@, 0x4000) && q_pixel(
                points@[k as int + 1].1@,
                0x4000,
            ));
            lemma_q_op_bounds(b.0@, a.0@, 0x4000, 1, 0x4000, 1);
            lemma_q_op_bounds(b.1@, a.1@, 0x4000, 1, 0x4000, 1);
            lemma_q_norm_small(q_sub(b.0@, a.0@));
            lemma_q_norm_small(q_sub(b.1@, a.1@));
        }
    }
    let abx = need(b.0.checked_sub(a.0))?;
    let aby = need(b.1.checked_sub(a.1))?;
    proof {
        broadcast use vstd::arithmetic::mul::lemma_mul_nonzero;

        lemma_q_op_bounds(b.0@, a.0@, 0x4000, 0x4000, 0x4000, 0x4000);
        lemma_q_op_bounds(b.1@, a.1@, 0x4000, 0x4000, 0x4000, 0x4000);
        lemma_q_norm(q_sub(b.0@, a.0@));
        lemma_q_norm(q_sub(b.1@, a.1@));
        if abx.num == 0 && aby.num == 0 {
            lemma_q_eq_trans(q_sub(b.0@, a.0@), abx@, q_int(0));
            lemma_q_eq_trans(q_sub(b.1@, a.1@), aby@, q_int(0));
            assert(q_eq(points@[k as int].0@, points@[k as int + 1].0@));
            assert(q_eq(points@[k as int].1@, points@[k as int + 1].1@));
            assert(false);
        }
        if pix {
            lemma_q_norm_int(q_sub(b.0@, a.0@));
            lemma_q_norm_int(q_sub(b.1@, a.1@));
        }
    }
    let (nx, ny, tg) = match stroke_offset(abx, aby, stroke_width) {
        Ok(v) => v,
        Err(e) => {
            proof {
                if pix {
                    assert(false);
                }
            }
            return Err(e);
        },
    };
    let ghost t = tg@;
    let ghost abxq = q_sub(points@[k as int + 1].0@, points@[k as int].0@);
    let ghost abyq = q_sub(points@[k as int + 1].1@, points@[k as int].1@);
    proof {
        broadcast use vstd::arithmetic::mul::lemma_mul_nonzero;

        // the offset is an exact perpendicular of the exact
        // segment vector
        lemma_q_neg_congr(aby@, abyq);
        lemma_q_mul_congr(q_neg(aby@), q_neg(abyq), t);
        lemma_q_eq_trans(nx@, q_mul(q_neg(aby@), t), q_mul(q_neg(abyq), t));
        lemma_q_mul_congr(abx@, abxq, t);
        lemma_q_eq_trans(ny@, q_mul(abx@, t), q_mul(abxq, t));
        assert(abx@ == q_norm(abxq) && aby@ == q_norm(abyq));
        let lw = choose|l: int|
            stroke_scale_ok(t, stroke_width@, abx@, aby@, l);
        assert(stroke_scale_ok(t, stroke_width@, abx@, aby@, lw));
        assert(stroke_scale_ok(
            t,
            stroke_width@,
            q_norm(q_sub(points@[k as int + 1].0@, points@[k as int].0@)),
            q_norm(q_sub(points@[k as int + 1].1@, points@[k as int].1@)),
            lw,
        ));
        assert(perp_offset_ok(abxq, abyq, nx@, ny@, t));
        assert(seg_offset_ok(
            points@[k as int].0@,
            points@[k as int].1@,
            points@[k as int + 1].0@,
            points@[k as int + 1].1@,
            stroke_width@,
            nx@,
            ny@,
            t,
        ));
    }
    proof {
        if pix {
            assert(-0x2000_0000 <= nx.num <= 0x2000_0000 && 0 < nx.den <= 0x30000
                && -0x2000_0000 <= ny.num <= 0x2000_0000 && 0 < ny.den <= 0x30000);
        }
    }
    Ok((abx, aby, nx, ny, Ghost(t)))
}

impl ShapeRenderable {
    /// A stroked multi-segment path. Each segment becomes a quad widening
    /// it by the half-stroke offset on each side of the perpendicular; at
    /// each interior joint the signed cross product of the two directions
    /// classifies the join: zero (collinear) emits nothing, otherwise a
    /// bevel triangle on the outer side, plus the miter triangle exactly
    /// when the miter point's squared distance from the joint is within
    /// `(strokeWidth * 4 / 2)^2` — so a near-degenerate joint can never
    /// emit an unbounded spike. The ghost trace records, for every
    /// segment and joint, where its vertices sit and the offsets they
    /// were built from, so the emitted geometry is pinned.
    ///
    /// A zero-length segment is degenerate input, excluded here by
    /// precondition (the error model reports degenerate geometry at build
    /// time); `from_shape` drops coincident neighbors first and refuses a
    /// path with fewer than two distinct points as `Degenerate`.
    #[verifier::rlimit(100)]
    #[verifier::spinoff_prover]
    pub fn polyline_geometry(points: &[(Rat, Rat)], stroke_width: Rat) -> (r: Result<
        (Geometry, Ghost<PolylineTrace>),
        GeometryError,
    >)
        requires
            points_safe(points@),
            no_duplicate_neighbors(points@),
            rat_safe(stroke_width),
        ensures
            r matches Ok((g, tr)) ==> {
                &&& g.drawing_mode == DrawingMode::Triangles
                &&& g.instance_count == 0
                &&& if points@.len() < 2 {
                    g.verts@.len() == 0 && g.vertex_count == 0
                } else {
                    &&& tr@.joins.len() == points@.len() - 2
                    &&& tr@.offsets.len() == points@.len() - 1
                    &&& tr@.seg_bases.len() == points@.len() - 1
                    &&& tr@.join_offsets.len() == points@.len() - 2
                    &&& tr@.join_bases.len() == points@.len() - 2
                    &&& g.verts@.len() == 12 * (points@.len() - 1) + joins_comps(tr@.joins)
                    &&& g.vertex_count == g.verts@.len() as int / 2
                    &&& forall|j: int|
                        0 <= j < tr@.joins.len() ==> joint_ok(
                            points@,
                            stroke_width,
                            tr@.joins,
                            j,
                        )
                    &&& forall|j: int|
                        0 <= j < points@.len() - 1 ==> seg_quad_ok(
                            g.verts@,
                            #[trigger] tr@.seg_bases[j],
                            points@[j].0@,
                            points@[j].1@,
                            points@[j + 1].0@,
                            points@[j + 1].1@,
                            tr@.offsets[j].0,
                            tr@.offsets[j].1,
                        ) && seg_offset_ok(
                            points@[j].0@,
                            points@[j].1@,
                            points@[j + 1].0@,
                            points@[j + 1].1@,
                            stroke_width@,
                            tr@.offsets[j].0,
                            tr@.offsets[j].1,
                            tr@.offsets[j].2,
                        )
                    &&& forall|j: int|
                        0 <= j < points@.len() - 2 && !((#[trigger] tr@.joins[j])
                            is Straight) ==> join_geom_ok(
                            g.verts@,
                            tr@.join_bases[j],
                            tr@.joins[j],
                            cross_at(points@, j),
                            points@[j + 1],
                            (tr@.offsets[j].0, tr@.offsets[j].1),
                            (tr@.join_offsets[j].0, tr@.join_offsets[j].1),
                        ) && seg_offset_ok(
                            points@[j + 1].0@,
                            points@[j + 1].1@,
                            points@[j + 2].0@,
                            points@[j + 2].1@,
                            stroke_width@,
                            tr@.join_offsets[j].0,
                            tr@.join_offsets[j].1,
                            tr@.join_offsets[j].2,
                        )
                }
            },
            points_pixel(points@) && q_pixel(stroke_width@, 0x4000) ==> r is Ok,
    {
        let s_count = points.len();
        if s_count < 2 {
            let mut geometry = Geometry::new(DrawingMode::Triangles);
            geometry.add_buffer(Vec::new(), 2);
            return Ok((
                geometry,
                Ghost(
                    PolylineTrace {
                        joins: Seq::empty(),
                        offsets: Seq::empty(),
                        seg_bases: Seq::empty(),
                        join_offsets: Seq::empty(),
                        join_bases: Seq::empty(),
                    },
                ),
            ));
        }
        proof {
            if points_pixel(points@) && q_pixel(stroke_width@, 0x4000) {
                lemma_q_op_bounds(stroke_width@, stroke_width@, 0x4000, 1, 0x4000, 1);
                lemma_q_norm_small(q_mul(stroke_width@, stroke_width@));
            }
        }
        let lim0 = need(stroke_width.checked_mul(stroke_width))?;
        proof {
            if points_pixel(points@) && q_pixel(stroke_width@, 0x4000) {
                lemma_q_norm_int(q_mul(stroke_width@, stroke_width@));
                lemma_q_op_bounds(lim0@, Q { n: 4, d: 1 }, 0x1000_0000, 1, 4, 1);
                lemma_q_norm_small(q_mul(lim0@, Q { n: 4, d: 1 }));
            }
        }
        let lim = need(lim0.checked_mul(Rat::new(4, 1)))?;
        proof {
            broadcast use vstd::arithmetic::mul::lemma_mul_nonzero;

            lemma_q_mul_congr(lim0@, q_mul(stroke_width@, stroke_width@), Q { n: 4, d: 1 });
            lemma_q_eq_trans(
                lim@,
                q_mul(lim0@, Q { n: 4, d: 1 }),
                miter_limit_sq(stroke_width@),
            );
        }
        let mut verts: Vec<Rat> = Vec::new();
        let ghost mut js: Seq<Join> = Seq::empty();
        let ghost mut offs: Seq<(Q, Q, Q)> = Seq::empty();
        let ghost mut sbases: Seq<int> = Seq::empty();
        let ghost mut jofs: Seq<(Q, Q, Q)> = Seq::empty();
        let ghost mut jbases: Seq<int> = Seq::empty();
        let mut k: usize = 0;
        while k < s_count - 1
            invariant
                2 <= s_count == points@.len(),
                k <= s_count - 1,
                points_safe(points@),
                no_duplicate_neighbors(points@),
                rat_safe(stroke_width),
                rat_small(lim),
                q_eq(lim@, miter_limit_sq(stroke_width@)),
                js.len() == if (k as int) <= s_count - 2 {
                    k as int
                } else {
                    s_count - 2
                },
                offs.len() == k,
                sbases.len() == k,
                jofs.len() == js.len(),
                jbases.len() == js.len(),
                verts@.len() == 12 * k + joins_comps(js),
                forall|j: int| 0 <= j < js.len() ==> joint_ok(points@, stroke_width, js, j),
                forall|j: int|
                    0 <= j < k ==> seg_quad_ok(
                        verts@,
                        #[trigger] sbases[j],
                        points@[j].0@,
                        points@[j].1@,
                        points@[j + 1].0@,
                        points@[j + 1].1@,
                        offs[j].0,
                        offs[j].1,
                    ),
                forall|j: int|
                    0 <= j < k ==> seg_offset_ok(
                        points@[j].0@,
                        points@[j].1@,
                        points@[j + 1].0@,
                        points@[j + 1].1@,
                        stroke_width@,
                        (#[trigger] offs[j]).0,
                        offs[j].1,
                        offs[j].2,
                    ),
                forall|j: int|
                    0 <= j < js.len() && !((#[trigger] js[j]) is Straight) ==> join_geom_ok(
                        verts@,
                        jbases[j],
                        js[j],
                        cross_at(points@, j),
                        points@[j + 1],
                        (offs[j].0, offs[j].1),
                        (jofs[j].0, jofs[j].1),
                    ),
                forall|j: int|
                    0 <= j < js.len() && !((#[trigger] js[j]) is Straight) ==> seg_offset_ok(
                        points@[j + 1].0@,
                        points@[j + 1].1@,
                        points@[j + 2].0@,
                        points@[j + 2].1@,
                        stroke_width@,
                        jofs[j].0,
                        jofs[j].1,
                        jofs[j].2,
                    ),
            decreases s_count - 1 - k,
        {
            let a = points[k];
            let b = points[k + 1];
            let ghost pix = points_pixel(points@) && q_pixel(stroke_width@, 0x4000);
            let (abx, aby, nx, ny, tg) = match seg_setup(points, k, stroke_width) {
                Ok(v) => v,
                Err(e) => {
                    proof {
                        if pix {
                            assert(false);
                        }
                    }
                    return Err(e);
                },
            };
            let ghost t = tg@;
            let (a1x, a1y, a2x, a2y) = match corner_pair(a, nx, ny) {
                Ok(v) => v,
                Err(e) => {
                    proof {
                        if pix {
                            assert(false);
                        }
                    }
                    return Err(e);
                },
            };
            let (b1x, b1y, b2x, b2y) = match corner_pair(b, nx, ny) {
                Ok(v) => v,
                Err(e) => {
                    proof {
                        if pix {
                            assert(false);
                        }
                    }
                    return Err(e);
                },
            };
            let ghost seg_base = verts@.len() as int;
            let ghost verts0 = verts@;
            push_seg_quad(
                &mut verts,
                a1x,
                a1y,
                a2x,
                a2y,
                b1x,
                b1y,
                b2x,
                b2y,
                (a, b),
                Ghost((nx@, ny@)),
            );
            proof {
                offs = offs.push((nx@, ny@, t));
                sbases = sbases.push(seg_base);
            }
            let ghost vq = verts@;
            let ghost js0_len = js.len() as int;
            if k + 2 < s_count {
                let ghost js_before = js;
                let rec = match emit_joint(
                    &mut verts,
                    points,
                    k,
                    stroke_width,
                    lim,
                    abx,
                    aby,
                    a1x,
                    a1y,
                    a2x,
                    a2y,
                    b1x,
                    b1y,
                    b2x,
                    b2y,
                    Ghost((nx@, ny@)),
                ) {
                    Ok(v) => v,
                    Err(e) => {
                        proof {
                            if pix {
                                assert(false);
                            }
                        }
                        return Err(e);
                    },
                };
                proof {
                    js = js_before.push(rec@.0);
                    jofs = jofs.push(rec@.1);
                    jbases = jbases.push(rec@.2);
                    assert(js.drop_last() =~= js_before);
                    assert(joint_ok(points@, stroke_width, js, js.len() - 1));
                    assert forall|j: int| 0 <= j < js.len() - 1 implies joint_ok(
                        points@,
                        stroke_width,
                        js,
                        j,
                    ) by {
                        assert(js[j] == js_before[j]);
                        assert(joint_ok(points@, stroke_width, js_before, j));
                    }
                }
            }
            proof {
                assert forall|i: int| 0 <= i < verts0.len() implies verts@[i] == verts0[i] by {}
                assert forall|i: int| 0 <= i < vq.len() implies verts@[i] == vq[i] by {}
                assert forall|j: int| 0 <= j < offs.len() implies seg_quad_ok(
                    verts@,
                    #[trigger] sbases[j],
                    points@[j].0@,
                    points@[j].1@,
                    points@[j + 1].0@,
                    points@[j + 1].1@,
                    offs[j].0,
                    offs[j].1,
                ) by {
                    if j < k as int {
                        lemma_seg_quad_grow(
                            verts0,
                            verts@,
                            sbases[j],
                            points@[j].0@,
                            points@[j].1@,
                            points@[j + 1].0@,
                            points@[j + 1].1@,
                            offs[j].0,
                            offs[j].1,
                        );
                    } else {
                        lemma_seg_quad_grow(
                            vq,
                            verts@,
                            sbases[j],
                            points@[j].0@,
                            points@[j].1@,
                            points@[j + 1].0@,
                            points@[j + 1].1@,
                            offs[j].0,
                            offs[j].1,
                        );
                    }
                }
                assert forall|j: int|
                    0 <= j < js.len() && !((#[trigger] js[j]) is Straight)
                    implies join_geom_ok(
                    verts@,
                    jbases[j],
                    js[j],
                    cross_at(points@, j),
                    points@[j + 1],
                    (offs[j].0, offs[j].1),
                    (jofs[j].0, jofs[j].1),
                ) by {
                    if j < js0_len {
                        lemma_join_geom_grow(
                            verts0,
                            verts@,
                            jbases[j],
                            js[j],
                            cross_at(points@, j),
                            points@[j + 1],
                            (offs[j].0, offs[j].1),
                            (jofs[j].0, jofs[j].1),
                        );
                    }
                }
            }
            proof {
                assert forall|j: int| 0 <= j < offs.len() implies seg_offset_ok(
                    points@[j].0@,
                    points@[j].1@,
                    points@[j + 1].0@,
                    points@[j + 1].1@,
                    stroke_width@,
                    (#[trigger] offs[j]).0,
                    offs[j].1,
                    offs[j].2,
                ) by {
                    if j == k as int {
                        assert(offs[j] == (nx@, ny@, t));
                    }
                }
            }
            k = k + 1;
        }
        let ghost trace = PolylineTrace { joins: js, offsets: offs, seg_bases: sbases,
            join_offsets: jofs, join_bases: jbases };
        let mut geometry = Geometry::new(DrawingMode::Triangles);
        geometry.add_buffer(verts, 2);
        geometry.add_vertex_attribute(Attribute::new(0, 2, 2, 0));
        Ok((geometry, Ghost(trace)))
    }
}

/// The candidate miter point for one joint, with its exact squared
/// distance from the joint: the intersection of the two offset lines,
/// by checked arithmetic. `None` when an exact intermediate is not
/// representable; the caller then falls back to the bevel alone.
fn miter_candidate(
    abx: Rat,
    aby: Rat,
    bcx: Rat,
    bcy: Rat,
    z: Rat,
    ajx: Rat,
    ajy: Rat,
    bjx: Rat,
    bjy: Rat,
    bx: Rat,
    by: Rat,
) -> (r: Option<(Rat, Rat, Rat)>)
    requires
        rat_small(abx),
        rat_small(aby),
        rat_small(bcx),
        rat_small(bcy),
        rat_small(z),
        z.num != 0,
        rat_small(ajx),
        rat_small(ajy),
        rat_small(bjx),
        rat_small(bjy),
        rat_small(bx),
        rat_small(by),
    ensures
        r matches Some((mx, my, d2)) ==> {
            &&& rat_small(mx)
            &&& rat_small(my)
            &&& rat_small(d2)
            &&& q_eq(d2@, dist_sq(mx@, my@, bx@, by@))
        },
{
    let d1 = match bjx.checked_sub(ajx) {
        Some(v) => v,
        None => return None,
    };
    let m1 = match bcy.checked_mul(d1) {
        Some(v) => v,
        None => return None,
    };
    let d2v = match ajy.checked_sub(bjy) {
        Some(v) => v,
        None => return None,
    };
    let m2 = match bcx.checked_mul(d2v) {
        Some(v) => v,
        None => return None,
    };
    let an = match m1.checked_add(m2) {
        Some(v) => v,
        None => return None,
    };
    let alpha = match an.checked_div(z) {
        Some(v) => v,
        None => return None,
    };
    let sx = match alpha.checked_mul(abx) {
        Some(v) => v,
        None => return None,
    };
    let sy = match alpha.checked_mul(aby) {
        Some(v) => v,
        None => return None,
    };
    let mxv = match ajx.checked_add(sx) {
        Some(v) => v,
        None => return None,
    };
    let myv = match ajy.checked_add(sy) {
        Some(v) => v,
        None => return None,
    };
    let ddx = match mxv.checked_sub(bx) {
        Some(v) => v,
        None => return None,
    };
    let ddy = match myv.checked_sub(by) {
        Some(v) => v,
        None => return None,
    };
    let sq1 = match ddx.checked_mul(ddx) {
        Some(v) => v,
        None => return None,
    };
    let sq2 = match ddy.checked_mul(ddy) {
        Some(v) => v,
        None => return None,
    };
    let dist2 = match sq1.checked_add(sq2) {
        Some(v) => v,
        None => return None,
    };
    proof {
        broadcast use vstd::arithmetic::mul::lemma_mul_nonzero;

        // dist2 ~ the exact squared distance of the miter point from
        // the joint
        lemma_q_mul_congr(ddx@, q_sub(mxv@, bx@), ddx@);
        lemma_q_mul_congr_right(q_sub(mxv@, bx@), ddx@, q_sub(mxv@, bx@));
        lemma_q_eq_trans(sq1@, q_mul(ddx@, ddx@), q_mul(q_sub(mxv@, bx@), ddx@));
        lemma_q_eq_trans(
            sq1@,
            q_mul(q_sub(mxv@, bx@), ddx@),
            q_mul(q_sub(mxv@, bx@), q_sub(mxv@, bx@)),
        );
        lemma_q_mul_congr(ddy@, q_sub(myv@, by@), ddy@);
        lemma_q_mul_congr_right(q_sub(myv@, by@), ddy@, q_sub(myv@, by@));
        lemma_q_eq_trans(sq2@, q_mul(ddy@, ddy@), q_mul(q_sub(myv@, by@), ddy@));
        lemma_q_eq_trans(
            sq2@,
            q_mul(q_sub(myv@, by@), ddy@),
            q_mul(q_sub(myv@, by@), q_sub(myv@, by@)),
        );
        crate::rat::lemma_q_add_congr(sq1@, q_mul(q_sub(mxv@, bx@), q_sub(mxv@, bx@)), sq2@);
        lemma_q_eq_trans(
            dist2@,
            q_add(sq1@, sq2@),
            q_add(q_mul(q_sub(mxv@, bx@), q_sub(mxv@, bx@)), sq2@),
        );
        crate::rat::lemma_q_add_congr_right(
            q_mul(q_sub(mxv@, bx@), q_sub(mxv@, bx@)),
            sq2@,
            q_mul(q_sub(myv@, by@), q_sub(myv@, by@)),
        );
        lemma_q_eq_trans(
            dist2@,
            q_add(q_mul(q_sub(mxv@, bx@), q_sub(mxv@, bx@)), sq2@),
            dist_sq(mxv@, myv@, bx@, by@),
        );
    }
    Some((mxv, myv, dist2))
}

/// The contract of one joint's decision: a `Straight` record exactly
/// when the two directions are collinear, and a recorded miter point
/// always within the miter limit.
pub open spec fn joint_decision_ok(pts: Seq<(Rat, Rat)>, stroke_width: Rat, j: Join, k: int) -> bool {
    &&& (j is Straight <==> q_eq(cross_at(pts, k), q_int(0)))
    &&& (j matches Join::Miter { mx, my, d2, lim } ==> {
        &&& q_eq(d2, dist_sq(mx, my, pts[k + 1].0@, pts[k + 1].1@))
        &&& q_eq(lim, miter_limit_sq(stroke_width@))
        &&& q_le(d2, lim)
        &&& d2.d > 0
        &&& lim.d > 0
    })
}

/// [`joint_decision_ok`] of the `j`-th recorded joint.
pub open spec fn joint_ok(pts: Seq<(Rat, Rat)>, stroke_width: Rat, js: Seq<Join>, j: int) -> bool {
    joint_decision_ok(pts, stroke_width, js[j], j)
}

/// Bhaskara's rational approximation of the sine on `[0, 180]` degrees:
/// `4 t (180 - t) / (40500 - t (180 - t))`. Exact at 0, 90 and 180.
pub open spec fn sin_half(t: Q) -> Q
    recommends
        q_le(q_int(0), t),
        q_le(t, q_int(180)),
{
    let u = q_mul(t, q_sub(q_int(180), t));
    q_div(q_mul(q_int(4), u), q_sub(q_int(40500), u))
}

/// The sine of an angle in `[0, 360]` degrees, by the rational
/// approximation.
pub open spec fn sin_deg(t: Q) -> Q {
    if q_le(t, q_int(180)) {
        sin_half(t)
    } else {
        q_neg(sin_half(q_sub(t, q_int(180))))
    }
}

/// The cosine of an angle in `[0, 360]` degrees: the sine shifted by a
/// quarter turn.
pub open spec fn cos_deg(t: Q) -> Q {
    if q_le(t, q_int(90)) {
        sin_half(q_add(t, q_int(90)))
    } else if q_le(t, q_int(270)) {
        q_neg(sin_half(q_sub(t, q_int(90))))
    } else {
        sin_half(q_sub(t, q_int(270)))
    }
}

/// The outcome of the checked Bhaskara chain: `Some` exactly when the
/// executable approximation returns a value.
pub open spec fn sin_half_stored(t: Q) -> Option<Q> {
    match stored(q_sub(q_int(180), t)) {
        Some(s1) => match stored(q_mul(t, s1)) {
            Some(u) => match stored(q_mul(q_int(4), u)) {
                Some(fu) => match stored(q_sub(q_int(40500), u)) {
                    Some(den) => stored(q_div(fu, den)),
                    None => None,
                },
                None => None,
            },
            None => None,
        },
        None => None,
    }
}

/// The outcome of the checked sine chain over a full turn.
pub open spec fn sin_deg_stored(t: Q) -> Option<Q> {
    if q_le(t, q_int(180)) {
        sin_half_stored(t)
    } else {
        match stored(q_sub(t, q_int(180))) {
            Some(d) => match sin_half_stored(d) {
                Some(v) => Some(q_neg(v)),
                None => None,
            },
            None => None,
        }
    }
}

/// The outcome of the checked cosine chain over a full turn.
pub open spec fn cos_deg_stored(t: Q) -> Option<Q> {
    if q_le(t, q_int(90)) {
        match stored(q_add(t, q_int(90))) {
            Some(d) => sin_half_stored(d),
            None => None,
        }
    } else if q_le(t, q_int(270)) {
        match stored(q_sub(t, q_int(90))) {
            Some(d) => match sin_half_stored(d) {
                Some(v) => Some(q_neg(v)),
                None => None,
            },
            None => None,
        }
    } else {
        match stored(q_sub(t, q_int(270))) {
            Some(d) => sin_half_stored(d),
            None => None,
        }
    }
}

/// `t (180 - t) <= 8100` on `[0, 180]`, so the approximation's divisor
/// stays positive.
proof fn lemma_sin_half_bound(t: Q)
    requires
        t.d > 0,
        q_le(q_int(0), t),
        q_le(t, q_int(180)),
    ensures
        q_le(q_mul(t, q_sub(q_int(180), t)), q_int(8100)),
        q_sub(q_int(40500), q_mul(t, q_sub(q_int(180), t))).n > 0,
        q_sub(q_int(40500), q_mul(t, q_sub(q_int(180), t))).d > 0,
{
    assert(t.n * (180 * t.d - t.n) * 1 <= 8100 * (t.d * t.d) && 40500 * (t.d * t.d) - t.n * (180
        * t.d - t.n) * 1 > 0 && t.d * t.d > 0) by (nonlinear_arith)
        requires
            t.d > 0,
            0 <= t.n,
            t.n <= 180 * t.d,
    ;
}

/// The core of the sine: Bhaskara's formula, by checked arithmetic.
fn sin_half_exec(t: Rat) -> (r: Option<Rat>)
    requires
        rat_small(t),
        q_le(q_int(0), t@),
        q_le(t@, q_int(180)),
    ensures
        r matches Some(v) ==> q_eq(v@, sin_half(t@)) && rat_small(v) && sin_half_stored(t@)
            == Some(v@),
        r is None ==> sin_half_stored(t@) is None,
{
    let s1 = match Rat::new(180, 1).checked_sub(t) {
        Some(v) => v,
        None => return None,
    };
    proof {
        assert(stored(q_sub(q_int(180), t@)) == Some(s1@));
    }
    let u = match t.checked_mul(s1) {
        Some(v) => v,
        None => return None,
    };
    proof {
        assert(stored(q_mul(t@, s1@)) == Some(u@));
    }
    let four_u = match Rat::new(4, 1).checked_mul(u) {
        Some(v) => v,
        None => return None,
    };
    proof {
        assert(stored(q_mul(q_int(4), u@)) == Some(four_u@));
    }
    let den = match Rat::new(40500, 1).checked_sub(u) {
        Some(v) => v,
        None => return None,
    };
    proof {
        assert(stored(q_sub(q_int(40500), u@)) == Some(den@));
    }
    let ghost uq = q_mul(t@, q_sub(q_int(180), t@));
    proof {
        broadcast use vstd::arithmetic::mul::lemma_mul_nonzero;

        lemma_q_mul_congr_right(t@, s1@, q_sub(q_int(180), t@));
        lemma_q_eq_trans(u@, q_mul(t@, s1@), uq);
        lemma_q_mul_congr_right(q_int(4), u@, uq);
        lemma_q_eq_trans(four_u@, q_mul(q_int(4), u@), q_mul(q_int(4), uq));
        lemma_q_sub_congr_right(q_int(40500), u@, uq);
        lemma_q_eq_trans(den@, q_sub(q_int(40500), u@), q_sub(q_int(40500), uq));
        lemma_sin_half_bound(t@);
        crate::rat::lemma_q_eq_pos(den@, q_sub(q_int(40500), uq));
    }
    let res = match four_u.checked_div(den) {
        Some(v) => v,
        None => return None,
    };
    proof {
        broadcast use vstd::arithmetic::mul::lemma_mul_nonzero;

        crate::rat::lemma_q_div_congr(four_u@, q_mul(q_int(4), uq), den@);
        lemma_q_eq_trans(res@, q_div(four_u@, den@), q_div(q_mul(q_int(4), uq), den@));
        crate::rat::lemma_q_div_congr_right(
            q_mul(q_int(4), uq),
            den@,
            q_sub(q_int(40500), uq),
        );
        lemma_q_eq_trans(
            res@,
            q_div(q_mul(q_int(4), uq), den@),
            sin_half(t@),
        );
    }
    Some(res)
}

/// The approximate sine of `t` degrees, `0 <= t <= 360`.
fn sin_deg_exec(t: Rat) -> (r: Option<Rat>)
    requires
        rat_small(t),
        q_le(q_int(0), t@),
        q_le(t@, q_int(360)),
    ensures
        r matches Some(v) ==> q_eq(v@, sin_deg(t@)) && rat_small(v) && sin_deg_stored(t@)
            == Some(v@),
        r is None ==> sin_deg_stored(t@) is None,
{
    if t.le(Rat::new(180, 1)) {
        sin_half_exec(t)
    } else {
        let d = match t.checked_sub(Rat::new(180, 1)) {
            Some(v) => v,
            None => return None,
        };
        proof {
            assert(stored(q_sub(t@, q_int(180))) == Some(d@));
        }
        let s = match sin_half_exec_eq(d, Ghost(q_sub(t@, q_int(180)))) {
            Some(v) => v,
            None => return None,
        };
        proof {
            lemma_q_neg_congr(s@, sin_half(q_sub(t@, q_int(180))));
        }
        Some(s.neg())
    }
}

/// The approximate cosine of `t` degrees, `0 <= t <= 360`.
fn cos_deg_exec(t: Rat) -> (r: Option<Rat>)
    requires
        rat_small(t),
        q_le(q_int(0), t@),
        q_le(t@, q_int(360)),
    ensures
        r matches Some(v) ==> q_eq(v@, cos_deg(t@)) && rat_small(v) && cos_deg_stored(t@)
            == Some(v@),
        r is None ==> cos_deg_stored(t@) is None,
{
    if t.le(Rat::new(90, 1)) {
        let d = match t.checked_add(Rat::new(90, 1)) {
            Some(v) => v,
            None => return None,
        };
        proof {
            assert(stored(q_add(t@, q_int(90))) == Some(d@));
        }
        sin_half_exec_eq(d, Ghost(q_add(t@, q_int(90))))
    } else if t.le(Rat::new(270, 1)) {
        let d = match t.checked_sub(Rat::new(90, 1)) {
            Some(v) => v,
            None => return None,
        };
        proof {
            assert(stored(q_sub(t@, q_int(90))) == Some(d@));
        }
        let s = match sin_half_exec_eq(d, Ghost(q_sub(t@, q_int(90)))) {
            Some(v) => v,
            None => return None,
        };
        proof {
            lemma_q_neg_congr(s@, sin_half(q_sub(t@, q_int(90))));
        }
        Some(s.neg())
    } else {
        let d = match t.checked_sub(Rat::new(270, 1)) {
            Some(v) => v,
            None => return None,
        };
        proof {
            assert(stored(q_sub(t@, q_int(270))) == Some(d@));
        }
        sin_half_exec_eq(d, Ghost(q_sub(t@, q_int(270))))
    }
}

/// `sin_half_exec` on a reduced angle known equal to the exact one: the
/// result approximates the sine of the exact angle.
fn sin_half_exec_eq(d: Rat, exact: Ghost<Q>) -> (r: Option<Rat>)
    requires
        rat_small(d),
        q_eq(d@, exact@),
        exact@.d > 0,
        q_le(q_int(0), exact@),
        q_le(exact@, q_int(180)),
    ensures
        r matches Some(v) ==> q_eq(v@, sin_half(exact@)) && rat_small(v) && sin_half_stored(d@)
            == Some(v@),
        r is None ==> sin_half_stored(d@) is None,
{
    proof {
        lemma_q_le_transfer(exact@, d@);
    }
    let res = match sin_half_exec(d) {
        Some(v) => v,
        None => return None,
    };
    proof {
        broadcast use vstd::arithmetic::mul::lemma_mul_nonzero;

        lemma_sin_half_congr(d@, exact@);
        lemma_q_eq_trans(res@, sin_half(d@), sin_half(exact@));
    }
    Some(res)
}

/// Order against the integer anchors transfers across equal fractions.
proof fn lemma_q_le_transfer(a: Q, b: Q) by (nonlinear_arith)
    requires
        q_eq(a, b),
        a.d > 0,
        b.d > 0,
    ensures
        q_le(q_int(0), a) ==> q_le(q_int(0), b),
        q_le(a, q_int(180)) ==> q_le(b, q_int(180)),
{
}

/// Equal angles give equal approximate sines.
proof fn lemma_sin_half_congr(a: Q, b: Q)
    requires
        q_eq(a, b),
        a.d > 0,
        b.d > 0,
        q_le(q_int(0), a),
        q_le(a, q_int(180)),
        q_le(q_int(0), b),
        q_le(b, q_int(180)),
    ensures
        q_eq(sin_half(a), sin_half(b)),
{
    broadcast use vstd::arithmetic::mul::lemma_mul_nonzero;

    let ua = q_mul(a, q_sub(q_int(180), a));
    let ub = q_mul(b, q_sub(q_int(180), b));
    lemma_q_sub_congr_right(q_int(180), a, b);
    lemma_q_mul_congr(a, b, q_sub(q_int(180), a));
    lemma_q_mul_congr_right(b, q_sub(q_int(180), a), q_sub(q_int(180), b));
    lemma_q_eq_trans(ua, q_mul(b, q_sub(q_int(180), a)), ub);
    crate::rat::lemma_q_mul_congr_right(q_int(4), ua, ub);
    lemma_q_sub_congr_right(q_int(40500), ua, ub);
    lemma_sin_half_bound(a);
    lemma_sin_half_bound(b);
    crate::rat::lemma_q_div_congr(q_mul(q_int(4), ua), q_mul(q_int(4), ub), q_sub(q_int(40500), ua));
    crate::rat::lemma_q_div_congr_right(
        q_mul(q_int(4), ub),
        q_sub(q_int(40500), ua),
        q_sub(q_int(40500), ub),
    );
    lemma_q_eq_trans(
        q_div(q_mul(q_int(4), ua), q_sub(q_int(40500), ua)),
        q_div(q_mul(q_int(4), ub), q_sub(q_int(40500), ua)),
        q_div(q_mul(q_int(4), ub), q_sub(q_int(40500), ub)),
    );
}

/// The angle of perimeter sample `i` of `n` on a full turn, in degrees:
/// `360 i / n`.
pub open spec fn fan_angle(i: int, n: int) -> Q {
    Q { n: 360 * i, d: n }
}

/// The angle of sample `i` of `n` on a quarter turn starting at `base`
/// degrees: `base + 90 i / n`.
pub open spec fn corner_angle(base: int, i: int, n: int) -> Q {
    Q { n: base * n + 90 * i, d: n }
}

/// Largest accepted sample count for circle, ellipse and corner arcs.
pub const SEGMENTS_MAX: usize = 0x1000;

/// The outcome of the checked chain for one ellipse perimeter sample.
pub open spec fn ellipse_sample_stored(rx: Q, ry: Q, i: int, n: int) -> Option<(Q, Q)> {
    match cos_deg_stored(fan_angle(i, n)) {
        Some(c) => match sin_deg_stored(fan_angle(i, n)) {
            Some(sv) => match stored(q_mul(rx, c)) {
                Some(x) => match stored(q_mul(ry, sv)) {
                    Some(y) => Some((x, y)),
                    None => None,
                },
                None => None,
            },
            None => None,
        },
        None => None,
    }
}

/// The outcome of the checked chain for one corner-arc sample.
pub open spec fn corner_sample_stored(ccx: Q, ccy: Q, rad: Q, base: int, i: int, n: int) -> Option<
    (Q, Q),
> {
    match cos_deg_stored(corner_angle(base, i, n)) {
        Some(c) => match sin_deg_stored(corner_angle(base, i, n)) {
            Some(sv) => match stored(q_mul(rad, c)) {
                Some(xo) => match stored(q_mul(rad, sv)) {
                    Some(yo) => match stored(q_add(ccx, xo)) {
                        Some(x) => match stored(q_add(ccy, yo)) {
                            Some(y) => Some((x, y)),
                            None => None,
                        },
                        None => None,
                    },
                    None => None,
                },
                None => None,
            },
            None => None,
        },
        None => None,
    }
}

/// One perimeter sample of an axis-aligned ellipse: the center plus the
/// radii times the approximate cosine and sine.
fn ellipse_sample(rx: Rat, ry: Rat, i: usize, n: usize) -> (r: Result<(Rat, Rat), GeometryError>)
    requires
        rat_small(rx),
        rat_small(ry),
        i <= n,
        1 <= n <= SEGMENTS_MAX,
    ensures
        r matches Ok((x, y)) ==> {
            &&& q_eq(x@, q_mul(rx@, cos_deg(fan_angle(i as int, n as int))))
            &&& q_eq(y@, q_mul(ry@, sin_deg(fan_angle(i as int, n as int))))
            &&& rat_small(x)
            &&& rat_small(y)
            &&& ellipse_sample_stored(rx@, ry@, i as int, n as int) == Some((x@, y@))
        },
        r is Err ==> ellipse_sample_stored(rx@, ry@, i as int, n as int) is None,
    {
        let theta = Rat::new(360 * (i as i64), n as i64);
        let c = need(cos_deg_exec(theta))?;
        proof {
            assert(cos_deg_stored(fan_angle(i as int, n as int)) == Some(c@));
        }
        let s = need(sin_deg_exec(theta))?;
        proof {
            assert(sin_deg_stored(fan_angle(i as int, n as int)) == Some(s@));
        }
        let x = need(rx.checked_mul(c))?;
        proof {
            assert(stored(q_mul(rx@, c@)) == Some(x@));
        }
        let y = need(ry.checked_mul(s))?;
        proof {
            broadcast use vstd::arithmetic::mul::lemma_mul_nonzero;

            lemma_q_mul_congr_right(rx@, c@, cos_deg(fan_angle(i as int, n as int)));
            lemma_q_eq_trans(
                x@,
                q_mul(rx@, c@),
                q_mul(rx@, cos_deg(fan_angle(i as int, n as int))),
            );
            lemma_q_mul_congr_right(ry@, s@, sin_deg(fan_angle(i as int, n as int)));
            lemma_q_eq_trans(
                y@,
                q_mul(ry@, s@),
                q_mul(ry@, sin_deg(fan_angle(i as int, n as int))),
            );
        }
        Ok((x, y))
    }

impl ShapeRenderable {
    /// A filled ellipse as a triangle fan: the center, then `segments`
    /// uniformly-angled perimeter samples, then the wrap-around closing
    /// sample at 360 degrees.
    #[verifier::rlimit(100)]
    #[verifier::spinoff_prover]
    pub fn ellipse_geometry(rx: Rat, ry: Rat, segments: usize) -> (r: Result<
        Geometry,
        GeometryError,
    >)
        requires
            rat_small(rx),
            rat_small(ry),
            1 <= segments <= SEGMENTS_MAX,
        ensures
            r matches Ok(g) ==> {
                &&& g.drawing_mode == DrawingMode::TriangleFan
                &&& g.verts@.len() == 2 * (segments + 2)
                &&& g.vertex_count == segments + 2
                &&& g.verts@[0]@ == q_int(0) && g.verts@[1]@ == q_int(0)
                &&& forall|i: int|
                    0 <= i <= segments ==> {
                        &&& q_eq(
                            #[trigger] g.verts@[2 + 2 * i]@,
                            q_mul(rx@, cos_deg(fan_angle(i, segments as int))),
                        )
                        &&& q_eq(
                            g.verts@[3 + 2 * i]@,
                            q_mul(ry@, sin_deg(fan_angle(i, segments as int))),
                        )
                    }
            },
            r is Ok <==> forall|i: int|
                0 <= i <= segments ==> (#[trigger] ellipse_sample_stored(
                    rx@,
                    ry@,
                    i,
                    segments as int,
                )) is Some,
    {
        let mut verts: Vec<Rat> = Vec::new();
        verts.push(Rat::zero());
        verts.push(Rat::zero());
        let mut i: usize = 0;
        while i <= segments
            invariant
                rat_small(rx),
                rat_small(ry),
                1 <= segments <= SEGMENTS_MAX,
                i <= segments + 1,
                verts@.len() == 2 + 2 * i,
                verts@[0]@ == q_int(0) && verts@[1]@ == q_int(0),
                forall|j: int|
                    0 <= j < i ==> {
                        &&& q_eq(
                            #[trigger] verts@[2 + 2 * j]@,
                            q_mul(rx@, cos_deg(fan_angle(j, segments as int))),
                        )
                        &&& q_eq(
                            verts@[3 + 2 * j]@,
                            q_mul(ry@, sin_deg(fan_angle(j, segments as int))),
                        )
                    },
                forall|j: int|
                    0 <= j < i ==> (#[trigger] ellipse_sample_stored(
                        rx@,
                        ry@,
                        j,
                        segments as int,
                    )) is Some,
            decreases segments + 1 - i,
        {
            let (x, y) = ellipse_sample(rx, ry, i, segments)?;
            let ghost verts0 = verts@;
            verts.push(x);
            verts.push(y);
            proof {
                assert(verts@[2 + 2 * (i as int)] == x);
                assert(verts@[3 + 2 * (i as int)] == y);
                assert forall|j: int| 0 <= j < i + 1 implies {
                    &&& q_eq(
                        #[trigger] verts@[2 + 2 * j]@,
                        q_mul(rx@, cos_deg(fan_angle(j, segments as int))),
                    )
                    &&& q_eq(
                        verts@[3 + 2 * j]@,
                        q_mul(ry@, sin_deg(fan_angle(j, segments as int))),
                    )
                } by {
                    if j < i as int {
                        assert(verts@[2 + 2 * j] == verts0[2 + 2 * j]);
                        assert(verts@[3 + 2 * j] == verts0[3 + 2 * j]);
                        assert(q_eq(
                            verts0[2 + 2 * j]@,
                            q_mul(rx@, cos_deg(fan_angle(j, segments as int))),
                        ));
                    } else {
                        assert(verts@[2 + 2 * j] == x);
                        assert(verts@[3 + 2 * j] == y);
                    }
                }
            }
            i = i + 1;
        }
        let mut geometry = Geometry::new(DrawingMode::TriangleFan);
        geometry.add_buffer(verts, 2);
        geometry.add_vertex_attribute(Attribute::new(0, 2, 2, 0));
        Ok(geometry)
    }

    /// A filled circle: an ellipse with equal radii.
    pub fn circle_geometry(radius: Rat, segments: usize) -> (r: Result<Geometry, GeometryError>)
        requires
            rat_small(radius),
            1 <= segments <= SEGMENTS_MAX,
        ensures
            r matches Ok(g) ==> {
                &&& g.drawing_mode == DrawingMode::TriangleFan
                &&& g.verts@.len() == 2 * (segments + 2)
                &&& g.vertex_count == segments + 2
                &&& g.verts@[0]@ == q_int(0) && g.verts@[1]@ == q_int(0)
                &&& forall|i: int|
                    0 <= i <= segments ==> {
                        &&& q_eq(
                            #[trigger] g.verts@[2 + 2 * i]@,
                            q_mul(radius@, cos_deg(fan_angle(i, segments as int))),
                        )
                        &&& q_eq(
                            g.verts@[3 + 2 * i]@,
                            q_mul(radius@, sin_deg(fan_angle(i, segments as int))),
                        )
                    }
            },
            r is Ok <==> forall|i: int|
                0 <= i <= segments ==> (#[trigger] ellipse_sample_stored(
                    radius@,
                    radius@,
                    i,
                    segments as int,
                )) is Some,
    {
        Self::ellipse_geometry(radius, radius, segments)
    }
}

/// Every sample of one corner arc is representable.
pub open spec fn corner_all_stored(ccx: Q, ccy: Q, rad: Q, base: int, n: int) -> bool {
    forall|i: int|
        0 <= i <= n ==> (#[trigger] corner_sample_stored(ccx, ccy, rad, base, i, n)) is Some
}

/// The outcome of the whole checked rounded-rectangle chain: the
/// centroid, the two inner corner coordinates, and every sample of the
/// four corner arcs.
pub open spec fn rrect_stored(w: Q, h: Q, rad: Q, n: int) -> bool {
    match stored(q_half(w)) {
        Some(cx) => match stored(q_half(h)) {
            Some(cy) => match stored(q_sub(w, rad)) {
                Some(wmr) => match stored(q_sub(h, rad)) {
                    Some(hmr) => {
                        &&& corner_all_stored(rad, rad, rad, 180, n)
                        &&& corner_all_stored(wmr, rad, rad, 270, n)
                        &&& corner_all_stored(wmr, hmr, rad, 0, n)
                        &&& corner_all_stored(rad, hmr, rad, 90, n)
                    },
                    None => false,
                },
                None => false,
            },
            None => false,
        },
        None => false,
    }
}

/// Append one quarter-circle corner arc to a fan: samples `base + 90 i /
/// segments` degrees around the exact corner center.
#[verifier::rlimit(100)]
#[verifier::spinoff_prover]
fn corner_arc(
    verts: &mut Vec<Rat>,
    ccx: Rat,
    ccy: Rat,
    radius: Rat,
    base: usize,
    segments: usize,
    exact_cx: Ghost<Q>,
    exact_cy: Ghost<Q>,
) -> (r: Result<(), GeometryError>)
    requires
        rat_small(ccx),
        rat_small(ccy),
        rat_small(radius),
        base <= 270,
        1 <= segments <= SEGMENTS_MAX,
        q_eq(ccx@, exact_cx@),
        q_eq(ccy@, exact_cy@),
        exact_cx@.d != 0,
        exact_cy@.d != 0,
    ensures
        r is Ok <==> corner_all_stored(ccx@, ccy@, radius@, base as int, segments as int),
        r is Ok ==> {
            &&& final(verts)@.len() == old(verts)@.len() + 2 * (segments + 1)
            &&& forall|j: int| 0 <= j < old(verts)@.len() ==> final(verts)@[j] == old(verts)@[j]
            &&& forall|i: int|
                0 <= i <= segments ==> {
                    &&& q_eq(
                        #[trigger] final(verts)@[old(verts)@.len() + 2 * i]@,
                        q_add(
                            exact_cx@,
                            q_mul(radius@, cos_deg(corner_angle(base as int, i, segments as int))),
                        ),
                    )
                    &&& q_eq(
                        final(verts)@[old(verts)@.len() + 2 * i + 1]@,
                        q_add(
                            exact_cy@,
                            q_mul(radius@, sin_deg(corner_angle(base as int, i, segments as int))),
                        ),
                    )
                }
        },
{
    let base_len = verts.len();
    let mut i: usize = 0;
    while i <= segments
        invariant
            rat_small(ccx),
            rat_small(ccy),
            rat_small(radius),
            base <= 270,
            1 <= segments <= SEGMENTS_MAX,
            q_eq(ccx@, exact_cx@),
            q_eq(ccy@, exact_cy@),
            exact_cx@.d != 0,
            exact_cy@.d != 0,
            i <= segments + 1,
            base_len == old(verts)@.len(),
            verts@.len() == base_len + 2 * i,
            forall|j: int|
                0 <= j < i ==> (#[trigger] corner_sample_stored(
                    ccx@,
                    ccy@,
                    radius@,
                    base as int,
                    j,
                    segments as int,
                )) is Some,
            forall|j: int| 0 <= j < base_len ==> verts@[j] == old(verts)@[j],
            forall|j: int|
                0 <= j < i ==> {
                    &&& q_eq(
                        #[trigger] verts@[base_len + 2 * j]@,
                        q_add(
                            exact_cx@,
                            q_mul(radius@, cos_deg(corner_angle(base as int, j, segments as int))),
                        ),
                    )
                    &&& q_eq(
                        verts@[base_len + 2 * j + 1]@,
                        q_add(
                            exact_cy@,
                            q_mul(radius@, sin_deg(corner_angle(base as int, j, segments as int))),
                        ),
                    )
                },
        decreases segments + 1 - i,
    {
        let ghost theta_q = corner_angle(base as int, i as int, segments as int);
        proof {
            assert((base as int) * (segments as int) + 90 * (i as int) <= 360 * (
            segments as int) && 0 <= (base as int) * (segments as int)) by (nonlinear_arith)
                requires
                    base <= 270,
                    i <= segments,
                    1 <= segments,
            ;
        }
        let theta = Rat::new(
            (base as i64) * (segments as i64) + 90 * (i as i64),
            segments as i64,
        );
        let c = match cos_deg_exec(theta) {
            Some(v) => v,
            None => return Err(GeometryError::Unrepresentable),
        };
        proof {
            assert(cos_deg_stored(theta_q) == Some(c@));
        }
        let s = match sin_deg_exec(theta) {
            Some(v) => v,
            None => return Err(GeometryError::Unrepresentable),
        };
        proof {
            assert(sin_deg_stored(theta_q) == Some(s@));
        }
        let xoff = match radius.checked_mul(c) {
            Some(v) => v,
            None => return Err(GeometryError::Unrepresentable),
        };
        proof {
            assert(stored(q_mul(radius@, c@)) == Some(xoff@));
        }
        let yoff = match radius.checked_mul(s) {
            Some(v) => v,
            None => return Err(GeometryError::Unrepresentable),
        };
        proof {
            assert(stored(q_mul(radius@, s@)) == Some(yoff@));
        }
        let x = match ccx.checked_add(xoff) {
            Some(v) => v,
            None => return Err(GeometryError::Unrepresentable),
        };
        proof {
            assert(stored(q_add(ccx@, xoff@)) == Some(x@));
        }
        let y = match ccy.checked_add(yoff) {
            Some(v) => v,
            None => return Err(GeometryError::Unrepresentable),
        };
        proof {
            assert(corner_sample_stored(ccx@, ccy@, radius@, base as int, i as int, segments as int)
                == Some((x@, y@)));
        }
        proof {
            broadcast use vstd::arithmetic::mul::lemma_mul_nonzero;

            lemma_q_mul_congr_right(radius@, c@, cos_deg(theta_q));
            lemma_q_eq_trans(xoff@, q_mul(radius@, c@), q_mul(radius@, cos_deg(theta_q)));
            lemma_q_mul_congr_right(radius@, s@, sin_deg(theta_q));
            lemma_q_eq_trans(yoff@, q_mul(radius@, s@), q_mul(radius@, sin_deg(theta_q)));
            crate::rat::lemma_q_add_congr(ccx@, exact_cx@, xoff@);
            lemma_q_eq_trans(x@, q_add(ccx@, xoff@), q_add(exact_cx@, xoff@));
            crate::rat::lemma_q_add_congr_right(
                exact_cx@,
                xoff@,
                q_mul(radius@, cos_deg(theta_q)),
            );
            lemma_q_eq_trans(
                x@,
                q_add(exact_cx@, xoff@),
                q_add(exact_cx@, q_mul(radius@, cos_deg(theta_q))),
            );
            crate::rat::lemma_q_add_congr(ccy@, exact_cy@, yoff@);
            lemma_q_eq_trans(y@, q_add(ccy@, yoff@), q_add(exact_cy@, yoff@));
            crate::rat::lemma_q_add_congr_right(
                exact_cy@,
                yoff@,
                q_mul(radius@, sin_deg(theta_q)),
            );
            lemma_q_eq_trans(
                y@,
                q_add(exact_cy@, yoff@),
                q_add(exact_cy@, q_mul(radius@, sin_deg(theta_q))),
            );
        }
        let ghost verts0 = verts@;
        verts.push(x);
        verts.push(y);
        proof {
            assert(verts@[base_len + 2 * (i as int)] == x);
            assert(verts@[base_len + 2 * (i as int) + 1] == y);
            assert forall|j: int| 0 <= j < i + 1 implies {
                &&& q_eq(
                    #[trigger] verts@[base_len + 2 * j]@,
                    q_add(
                        exact_cx@,
                        q_mul(radius@, cos_deg(corner_angle(base as int, j, segments as int))),
                    ),
                )
                &&& q_eq(
                    verts@[base_len + 2 * j + 1]@,
                    q_add(
                        exact_cy@,
                        q_mul(radius@, sin_deg(corner_angle(base as int, j, segments as int))),
                    ),
                )
            } by {
                if j == i as int {
                    assert(verts@[base_len + 2 * j] == x);
                    assert(verts@[base_len + 2 * j + 1] == y);
                } else {
                    assert(verts@[base_len + 2 * j] == verts0[base_len + 2 * j]);
                    assert(verts@[base_len + 2 * j + 1] == verts0[base_len + 2 * j + 1]);
                    assert(q_eq(
                        verts0[base_len + 2 * j]@,
                        q_add(
                            exact_cx@,
                            q_mul(
                                radius@,
                                cos_deg(corner_angle(base as int, j, segments as int)),
                            ),
                        ),
                    ));
                }
            }
        }
        i = i + 1;
    }
    Ok(())
}

impl ShapeRenderable {
    /// A filled rounded rectangle: a triangle fan from the rectangle's
    /// centroid through the four quarter-circle corner arcs (top-left,
    /// top-right, bottom-right, bottom-left), closed by repeating the
    /// first arc vertex. Requires `2 * radius` to fit both sides.
    #[verifier::rlimit(100)]
    #[verifier::spinoff_prover]
    pub fn rounded_rectangle_geometry(width: Rat, height: Rat, radius: Rat, segments: usize) -> (r:
        Result<Geometry, GeometryError>)
        requires
            rat_small(width),
            rat_small(height),
            rat_small(radius),
            1 <= segments <= SEGMENTS_MAX,
            q_le(q_mul(radius@, q_int(2)), width@),
            q_le(q_mul(radius@, q_int(2)), height@),
        ensures
            r matches Ok(g) ==> {
                &&& g.drawing_mode == DrawingMode::TriangleFan
                &&& g.verts@.len() == 2 * (4 * (segments + 1) + 2)
                &&& g.vertex_count == 4 * (segments + 1) + 2
                &&& q_eq(g.verts@[0]@, crate::camera::q_half(width@))
                &&& q_eq(g.verts@[1]@, crate::camera::q_half(height@))
                &&& g.verts@[g.verts@.len() - 2] == g.verts@[2]
                &&& g.verts@[g.verts@.len() - 1] == g.verts@[3]
                &&& rrect_corners_ok(g.verts@, width@, height@, radius@, segments as int)
            },
            r is Ok <==> rrect_stored(width@, height@, radius@, segments as int),
    {
        let cx = need(width.checked_mul(Rat::new(1, 2)))?;
        proof {
            assert(stored(q_half(width@)) == Some(cx@));
        }
        let cy = need(height.checked_mul(Rat::new(1, 2)))?;
        proof {
            assert(stored(q_half(height@)) == Some(cy@));
        }
        let wmr = need(width.checked_sub(radius))?;
        proof {
            assert(stored(q_sub(width@, radius@)) == Some(wmr@));
        }
        let hmr = need(height.checked_sub(radius))?;
        proof {
            assert(stored(q_sub(height@, radius@)) == Some(hmr@));
        }
        let mut verts: Vec<Rat> = Vec::new();
        verts.push(cx);
        verts.push(cy);
        proof {
            broadcast use vstd::arithmetic::mul::lemma_mul_nonzero;

        }
        let ghost v0 = verts@;
        match corner_arc(
            &mut verts,
            radius,
            radius,
            radius,
            180,
            segments,
            Ghost(radius@),
            Ghost(radius@),
        ) {
            Ok(u) => u,
            Err(e) => return Err(e),
        };
        let ghost v1 = verts@;
        match corner_arc(
            &mut verts,
            wmr,
            radius,
            radius,
            270,
            segments,
            Ghost(q_sub(width@, radius@)),
            Ghost(radius@),
        ) {
            Ok(u) => u,
            Err(e) => return Err(e),
        };
        let ghost v2 = verts@;
        match corner_arc(
            &mut verts,
            wmr,
            hmr,
            radius,
            0,
            segments,
            Ghost(q_sub(width@, radius@)),
            Ghost(q_sub(height@, radius@)),
        ) {
            Ok(u) => u,
            Err(e) => return Err(e),
        };
        let ghost v3 = verts@;
        match corner_arc(
            &mut verts,
            radius,
            hmr,
            radius,
            90,
            segments,
            Ghost(radius@),
            Ghost(q_sub(height@, radius@)),
        ) {
            Ok(u) => u,
            Err(e) => return Err(e),
        };
        let ghost v4 = verts@;
        let close_x = verts[2];
        let close_y = verts[3];
        verts.push(close_x);
        verts.push(close_y);
        proof {
            let n = segments as int;
            assert(v1.len() == 2 + 2 * (n + 1));
            assert(v2.len() == v1.len() + 2 * (n + 1));
            assert(v3.len() == v2.len() + 2 * (n + 1));
            assert(v4.len() == v3.len() + 2 * (n + 1));
            assert forall|c: int, i: int| 0 <= c < 4 && 0 <= i <= n implies {
                &&& q_eq(
                    #[trigger] verts@[2 + c * (2 * (n + 1)) + 2 * i]@,
                    q_add(
                        rrect_corner_cx(c, width@, radius@),
                        q_mul(radius@, cos_deg(corner_angle(rrect_corner_base(c), i, n))),
                    ),
                )
                &&& q_eq(
                    verts@[2 + c * (2 * (n + 1)) + 2 * i + 1]@,
                    q_add(
                        rrect_corner_cy(c, height@, radius@),
                        q_mul(radius@, sin_deg(corner_angle(rrect_corner_base(c), i, n))),
                    ),
                )
            } by {
                let idx = 2 + c * (2 * (n + 1)) + 2 * i;
                if c == 0 {
                    assert(idx == 2 + 2 * i);
                    assert(verts@[idx] == v1[idx] && verts@[idx + 1] == v1[idx + 1]);
                } else if c == 1 {
                    assert(idx == v1.len() + 2 * i);
                    assert(verts@[idx] == v2[idx] && verts@[idx + 1] == v2[idx + 1]);
                } else if c == 2 {
                    assert(idx == v2.len() + 2 * i);
                    assert(verts@[idx] == v3[idx] && verts@[idx + 1] == v3[idx + 1]);
                } else {
                    assert(idx == v3.len() + 2 * i);
                    assert(verts@[idx] == v4[idx] && verts@[idx + 1] == v4[idx + 1]);
                }
            }
        }
        let mut geometry = Geometry::new(DrawingMode::TriangleFan);
        geometry.add_buffer(verts, 2);
        geometry.add_vertex_attribute(Attribute::new(0, 2, 2, 0));
        Ok(geometry)
    }
}

/// The x coordinate of corner `c`'s circle center (corners in fan order:
/// top-left, top-right, bottom-right, bottom-left).
pub open spec fn rrect_corner_cx(c: int, w: Q, r: Q) -> Q {
    if c == 0 || c == 3 {
        r
    } else {
        q_sub(w, r)
    }
}

/// The y coordinate of corner `c`'s circle center.
pub open spec fn rrect_corner_cy(c: int, h: Q, r: Q) -> Q {
    if c == 0 || c == 1 {
        r
    } else {
        q_sub(h, r)
    }
}

/// The start angle of corner `c`'s arc, in degrees.
pub open spec fn rrect_corner_base(c: int) -> int {
    if c == 0 {
        180
    } else if c == 1 {
        270
    } else if c == 2 {
        0
    } else {
        90
    }
}

/// Every sample of every corner arc sits on its corner circle (via the
/// approximate sine and cosine), in emission order after the centroid.
pub open spec fn rrect_corners_ok(vs: Seq<Rat>, w: Q, h: Q, r: Q, n: int) -> bool {
    forall|c: int, i: int|
        0 <= c < 4 && 0 <= i <= n ==> {
            &&& q_eq(
                #[trigger] vs[2 + c * (2 * (n + 1)) + 2 * i]@,
                q_add(
                    rrect_corner_cx(c, w, r),
                    q_mul(r, cos_deg(corner_angle(rrect_corner_base(c), i, n))),
                ),
            )
            &&& q_eq(
                vs[2 + c * (2 * (n + 1)) + 2 * i + 1]@,
                q_add(
                    rrect_corner_cy(c, h, r),
                    q_mul(r, sin_deg(corner_angle(rrect_corner_base(c), i, n))),
                ),
            )
        }
}

/// The sweep of an arc from `s` to `e` degrees: the raw difference,
/// plus a full turn when it is negative, so the arc is always traversed
/// in the same winding direction.
pub open spec fn arc_sweep(s: Q, e: Q) -> Q {
    if q_lt(q_sub(e, s), q_int(0)) {
        q_add(q_sub(e, s), q_int(360))
    } else {
        q_sub(e, s)
    }
}

/// The raw angle of arc sample `i` of `n`: `start + (i/n) * sweep`.
pub open spec fn arc_theta(s: Q, e: Q, i: int, n: int) -> Q {
    q_add(s, q_mul(Q { n: i, d: n }, arc_sweep(s, e)))
}

/// The angle actually sampled equals the raw angle, possibly less one
/// full turn (the wrap back into `[0, 360]`).
pub open spec fn arc_theta_matches(th: Q, s: Q, e: Q, i: int, n: int) -> bool {
    q_eq(th, arc_theta(s, e, i, n)) || q_eq(th, q_sub(arc_theta(s, e, i, n), q_int(360)))
}

/// One sample of an arc sits on the circle of radius `r` around
/// `(x, y)` at an angle matching the raw sample angle (y grows
/// downward, so the sine is subtracted).
pub open spec fn arc_sample_ok(p: (Rat, Rat), x: Q, y: Q, r: Q, th: Q) -> bool {
    &&& q_eq(p.0@, q_add(x, q_mul(r, cos_deg(th))))
    &&& q_eq(p.1@, q_sub(y, q_mul(r, sin_deg(th))))
}

/// The outcome of the checked sweep normalization.
pub open spec fn arc_sweep_stored(start: Q, end: Q) -> Option<Q> {
    match stored(q_sub(end, start)) {
        Some(raw) => if q_lt(raw, q_int(0)) {
            stored(q_add(raw, q_int(360)))
        } else {
            Some(raw)
        },
        None => None,
    }
}

/// The outcome of the checked chain for one arc sample: the raw angle,
/// wrapped once into the trigonometric range (a sample whose angle still
/// falls outside it is refused), then the point on the circle.
pub open spec fn arc_sample_stored(
    x: Q,
    y: Q,
    rad: Q,
    start: Q,
    sweep: Q,
    i: int,
    n: int,
) -> Option<(Q, Q)> {
    match stored(q_mul(Q { n: i, d: n }, sweep)) {
        Some(m) => match stored(q_add(start, m)) {
            Some(th0) => {
                let th = if q_lt(q_int(360), th0) {
                    stored(q_sub(th0, q_int(360)))
                } else {
                    Some(th0)
                };
                match th {
                    Some(thv) => if q_le(q_int(0), thv) && q_le(thv, q_int(360)) {
                        match cos_deg_stored(thv) {
                            Some(c) => match sin_deg_stored(thv) {
                                Some(sv) => match stored(q_mul(rad, c)) {
                                    Some(xo) => match stored(q_mul(rad, sv)) {
                                        Some(yo) => match stored(q_add(x, xo)) {
                                            Some(px) => match stored(q_sub(y, yo)) {
                                                Some(py) => Some((px, py)),
                                                None => None,
                                            },
                                            None => None,
                                        },
                                        None => None,
                                    },
                                    None => None,
                                },
                                None => None,
                            },
                            None => None,
                        }
                    } else {
                        None
                    },
                    None => None,
                }
            },
            None => None,
        },
        None => None,
    }
}

/// One sample of an arc: the wrapped angle and the point on the circle.
#[verifier::rlimit(100)]
#[verifier::spinoff_prover]
fn arc_sample(
    x: Rat,
    y: Rat,
    radius: Rat,
    start: Rat,
    sweep: Rat,
    i: usize,
    segments: usize,
    end_q: Ghost<Q>,
) -> (r: Result<(Rat, Rat, Ghost<Q>), GeometryError>)
    requires
        rat_small(x),
        rat_small(y),
        rat_small(radius),
        rat_small(start),
        rat_small(sweep),
        i <= segments,
        1 <= segments <= SEGMENTS_MAX,
        q_eq(sweep@, arc_sweep(start@, end_q@)),
    ensures
        r matches Ok((px, py, th)) ==> {
            &&& rat_small(px) && rat_small(py)
            &&& arc_theta_matches(th@, start@, end_q@, i as int, segments as int)
            &&& arc_sample_ok((px, py), x@, y@, radius@, th@)
        },
        r is Ok <==> arc_sample_stored(
            x@,
            y@,
            radius@,
            start@,
            sweep@,
            i as int,
            segments as int,
        ) is Some,
{
    let full = Rat::new(360, 1);
    let zero = Rat::zero();
    let ti = Rat::new(i as i64, segments as i64);
    let m = need(ti.checked_mul(sweep))?;
    proof {
        assert(stored(q_mul(Q { n: i as int, d: segments as int }, sweep@)) == Some(m@));
    }
    let th0 = need(start.checked_add(m))?;
    proof {
        assert(stored(q_add(start@, m@)) == Some(th0@));
    }
    let ghost raw_theta = arc_theta(start@, end_q@, i as int, segments as int);
    proof {
        broadcast use vstd::arithmetic::mul::lemma_mul_nonzero;

        lemma_q_mul_congr_right(
            Q { n: i as int, d: segments as int },
            sweep@,
            arc_sweep(start@, end_q@),
        );
        lemma_q_eq_trans(
            m@,
            q_mul(Q { n: i as int, d: segments as int }, sweep@),
            q_mul(Q { n: i as int, d: segments as int }, arc_sweep(start@, end_q@)),
        );
        crate::rat::lemma_q_add_congr_right(
            start@,
            m@,
            q_mul(Q { n: i as int, d: segments as int }, arc_sweep(start@, end_q@)),
        );
        lemma_q_eq_trans(th0@, q_add(start@, m@), raw_theta);
    }
    let th = if full.lt(th0) {
        let v = need(th0.checked_sub(full))?;
        proof {
            lemma_q_sub_congr(th0@, raw_theta, q_int(360));
            lemma_q_eq_trans(v@, q_sub(th0@, q_int(360)), q_sub(raw_theta, q_int(360)));
        }
        v
    } else {
        th0
    };
    // guard the trigonometric range at run time; angles within one
    // turn never trip it
    if !(zero.le(th) && th.le(full)) {
        proof {
            assert(arc_sample_stored(
                x@,
                y@,
                radius@,
                start@,
                sweep@,
                i as int,
                segments as int,
            ) is None);
        }
        return Err(GeometryError::Unrepresentable);
    }
    let c = need(cos_deg_exec(th))?;
    proof {
        assert(cos_deg_stored(th@) == Some(c@));
    }
    let s = need(sin_deg_exec(th))?;
    proof {
        assert(sin_deg_stored(th@) == Some(s@));
    }
    let xoff = need(radius.checked_mul(c))?;
    let yoff = need(radius.checked_mul(s))?;
    proof {
        assert(stored(q_mul(radius@, c@)) == Some(xoff@));
        assert(stored(q_mul(radius@, s@)) == Some(yoff@));
    }
    let px = need(x.checked_add(xoff))?;
    let py = need(y.checked_sub(yoff))?;
    proof {
        assert(arc_sample_stored(
            x@,
            y@,
            radius@,
            start@,
            sweep@,
            i as int,
            segments as int,
        ) == Some((px@, py@)));
    }
    proof {
        broadcast use vstd::arithmetic::mul::lemma_mul_nonzero;

        lemma_q_mul_congr_right(radius@, c@, cos_deg(th@));
        lemma_q_eq_trans(xoff@, q_mul(radius@, c@), q_mul(radius@, cos_deg(th@)));
        lemma_q_mul_congr_right(radius@, s@, sin_deg(th@));
        lemma_q_eq_trans(yoff@, q_mul(radius@, s@), q_mul(radius@, sin_deg(th@)));
        crate::rat::lemma_q_add_congr_right(x@, xoff@, q_mul(radius@, cos_deg(th@)));
        lemma_q_eq_trans(px@, q_add(x@, xoff@), q_add(x@, q_mul(radius@, cos_deg(th@))));
        lemma_q_sub_congr_right(y@, yoff@, q_mul(radius@, sin_deg(th@)));
        lemma_q_eq_trans(py@, q_sub(y@, yoff@), q_sub(y@, q_mul(radius@, sin_deg(th@))));
    }
    Ok((px, py, Ghost(th@)))
}

/// Sample an arc into absolute points, counter-clockwise from the start
/// angle over the normalized sweep.
#[verifier::rlimit(100)]
#[verifier::spinoff_prover]
pub fn arc_points(x: Rat, y: Rat, radius: Rat, start: Rat, end: Rat, segments: usize) -> (r: Result<
    (Vec<(Rat, Rat)>, Ghost<Seq<Q>>),
    GeometryError,
>)
    requires
        rat_small(x),
        rat_small(y),
        rat_small(radius),
        rat_small(start),
        rat_small(end),
        1 <= segments <= SEGMENTS_MAX,
    ensures
        r matches Ok((ps, ths)) ==> {
            &&& ps@.len() == segments + 1
            &&& ths@.len() == segments + 1
            &&& forall|i: int|
                0 <= i <= segments ==> arc_theta_matches(
                    #[trigger] ths@[i],
                    start@,
                    end@,
                    i,
                    segments as int,
                )
            &&& forall|i: int|
                0 <= i <= segments ==> arc_sample_ok(
                    #[trigger] ps@[i],
                    x@,
                    y@,
                    radius@,
                    ths@[i],
                )
            &&& points_small(ps@)
        },
        r is Ok <==> (match arc_sweep_stored(start@, end@) {
            Some(sw) => forall|i: int|
                0 <= i <= segments ==> (#[trigger] arc_sample_stored(
                    x@,
                    y@,
                    radius@,
                    start@,
                    sw,
                    i,
                    segments as int,
                )) is Some,
            None => false,
        }),
{
    let raw = need(end.checked_sub(start))?;
    let sweep = if raw.is_negative() {
        need(raw.checked_add(Rat::new(360, 1)))?
    } else {
        raw
    };
    let ghost sweep_q = arc_sweep(start@, end@);
    proof {
        broadcast use vstd::arithmetic::mul::lemma_mul_nonzero;

        if q_lt(raw@, q_int(0)) {
            crate::rat::lemma_q_add_congr(raw@, q_sub(end@, start@), q_int(360));
            if !q_lt(q_sub(end@, start@), q_int(0)) {
                crate::rat::lemma_q_eq_sign(raw@, q_sub(end@, start@));
            }
        } else {
            if q_lt(q_sub(end@, start@), q_int(0)) {
                crate::rat::lemma_q_eq_sign(raw@, q_sub(end@, start@));
            }
        }
    }
    proof {
        if q_lt(raw@, q_int(0)) {
            lemma_q_eq_trans(sweep@, q_add(raw@, q_int(360)), sweep_q);
        }
        assert(q_eq(sweep@, sweep_q));
        assert(arc_sweep_stored(start@, end@) == Some(sweep@));
    }
    let mut ps: Vec<(Rat, Rat)> = Vec::new();
    let ghost mut ths: Seq<Q> = Seq::empty();
    let mut i: usize = 0;
    let full = Rat::new(360, 1);
    let zero = Rat::zero();
    while i <= segments
        invariant
            rat_small(x),
            rat_small(y),
            rat_small(radius),
            rat_small(start),
            rat_small(end),
            rat_small(sweep),
            1 <= segments <= SEGMENTS_MAX,
            i <= segments + 1,
            full.num == 360 && full.den == 1,
            zero.num == 0 && zero.den == 1,
            q_eq(sweep@, arc_sweep(start@, end@)),
            arc_sweep_stored(start@, end@) == Some(sweep@),
            ps@.len() == i,
            ths.len() == i,
            forall|j: int|
                0 <= j < i ==> arc_theta_matches(
                    #[trigger] ths[j],
                    start@,
                    end@,
                    j,
                    segments as int,
                ),
            forall|j: int|
                0 <= j < i ==> arc_sample_ok(#[trigger] ps@[j], x@, y@, radius@, ths[j]),
            forall|j: int|
                0 <= j < i ==> (#[trigger] arc_sample_stored(
                    x@,
                    y@,
                    radius@,
                    start@,
                    sweep@,
                    j,
                    segments as int,
                )) is Some,
            points_small(ps@),
        decreases segments + 1 - i,
    {
        let (px, py, thg) = match arc_sample(x, y, radius, start, sweep, i, segments, Ghost(end@)) {
            Ok(v) => v,
            Err(e) => return Err(e),
        };
        let ghost th_val = thg@;
        let ghost ps0 = ps@;
        let ghost ths0 = ths;
        ps.push((px, py));
        proof {
            ths = ths.push(th_val);
            assert(ths[i as int] == th_val);
            assert(ps@[i as int] == (px, py));
            assert forall|j: int|
                0 <= j < i + 1 implies arc_theta_matches(
                #[trigger] ths[j],
                start@,
                end@,
                j,
                segments as int,
            ) by {
                if j < i as int {
                    assert(ths[j] == ths0[j]);
                    assert(arc_theta_matches(ths0[j], start@, end@, j, segments as int));
                } else {
                    assert(ths[j] == th_val);
                }
            }
            assert forall|j: int|
                0 <= j < i + 1 implies arc_sample_ok(
                #[trigger] ps@[j],
                x@,
                y@,
                radius@,
                ths[j],
            ) by {
                if j < i as int {
                    assert(ths[j] == ths0[j]);
                    assert(ps@[j] == ps0[j]);
                    assert(arc_sample_ok(ps0[j], x@, y@, radius@, ths0[j]));
                } else {
                    assert(ths[j] == th_val);
                    assert(ps@[j] == (px, py));
                }
            }
        }
        i = i + 1;
    }
    Ok((ps, Ghost(ths)))
}

/// Drop consecutive duplicate points (exact equality), so the stroked
/// path has no zero-length segment.
#[verifier::rlimit(100)]
fn dedup_points(pts: &Vec<(Rat, Rat)>) -> (r: Vec<(Rat, Rat)>)
    requires
        points_small(pts@),
    ensures
        no_duplicate_neighbors(r@),
        points_small(r@),
        pts@.len() > 0 ==> r@.len() > 0,
        r@.len() <= pts@.len(),
{
    let mut out: Vec<(Rat, Rat)> = Vec::new();
    let n = pts.len();
    let mut i: usize = 0;
    while i < n
        invariant
            i <= n,
            n == pts@.len(),
            points_small(pts@),
            no_duplicate_neighbors(out@),
            points_small(out@),
            i > 0 ==> out@.len() > 0,
            out@.len() <= i,
        decreases n - i,
    {
        let p = pts[i];
        proof {
            assert(rat_small(pts@[i as int].0) && rat_small(pts@[i as int].1));
        }
        let push = if out.len() == 0 {
            true
        } else {
            let last = out[out.len() - 1];
            !(p.0.eq_rat(last.0) && p.1.eq_rat(last.1))
        };
        if push {
            let ghost out0 = out@;
            out.push(p);
            proof {
                assert(out@.drop_last() =~= out0);
                assert(out@[out@.len() - 1] == pts@[i as int]);
                assert forall|m: int| 0 <= m < out@.len() implies rat_small(
                    (#[trigger] out@[m]).0,
                ) && rat_small(out@[m].1) by {
                    if m < out@.len() - 1 {
                        assert(out@[m] == out0[m]);
                        assert(rat_small(out0[m].0) && rat_small(out0[m].1));
                    } else {
                        assert(out@[m] == pts@[i as int]);
                        assert(rat_small(pts@[i as int].0) && rat_small(pts@[i as int].1));
                    }
                }
            }
        }
        i = i + 1;
    }
    out
}

/// Whether a character's glyph is cached and has a visible bitmap.
pub open spec fn glyph_visible(m: Map<u32, crate::font::GlyphInfo>, ch: char) -> bool {
    m.contains_key(ch as u32) && m[ch as u32].width != 0 && m[ch as u32].height != 0
}

/// How many visible glyph quads a string produces under a glyph cache.
pub open spec fn text_quad_count(m: Map<u32, crate::font::GlyphInfo>, s: Seq<char>) -> int
    decreases s.len(),
{
    if s.len() == 0 {
        0
    } else {
        text_quad_count(m, s.drop_last()) + if glyph_visible(m, s.last()) {
            1int
        } else {
            0int
        }
    }
}

/// The outcome of the checked layout of one cached glyph: the quad
/// corners and UV extents for a visible glyph, then the pen advance.
pub open spec fn glyph_step_stored(info: crate::font::GlyphInfo, pen: Q, baseline: Q) -> Option<
    Q,
> {
    if info.width != 0 && info.height != 0 {
        match stored(q_add(pen, q_int(info.bearing_x as int))) {
            Some(x0) => match stored(q_sub(baseline, q_int(info.bearing_y as int))) {
                Some(y0) => match stored(q_add(x0, q_int(info.width as int))) {
                    Some(x1) => match stored(q_add(y0, q_int(info.height as int))) {
                        Some(y1) => match stored(q_add(info.uv_x@, info.uv_width@)) {
                            Some(u1) => match stored(q_add(info.uv_y@, info.uv_height@)) {
                                Some(v1) => stored(q_add(pen, info.advance@)),
                                None => None,
                            },
                            None => None,
                        },
                        None => None,
                    },
                    None => None,
                },
                None => None,
            },
            None => None,
        }
    } else {
        stored(q_add(pen, info.advance@))
    }
}

/// The outcome of the checked text layout: the pen folded over the
/// cached characters; `Some` exactly when the executable layout
/// succeeds.
pub open spec fn text_stored(
    m: Map<u32, crate::font::GlyphInfo>,
    s: Seq<char>,
    baseline: Q,
) -> Option<Q>
    decreases s.len(),
{
    if s.len() == 0 {
        Some(q_int(0))
    } else {
        match text_stored(m, s.drop_last(), baseline) {
            Some(pen) => if m.contains_key(s.last() as u32) {
                glyph_step_stored(m[s.last() as u32], pen, baseline)
            } else {
                Some(pen)
            },
            None => None,
        }
    }
}

/// Once a prefix of the layout fails, the whole layout fails.
proof fn lemma_text_stored_none(
    m: Map<u32, crate::font::GlyphInfo>,
    s: Seq<char>,
    baseline: Q,
    j: int,
)
    requires
        0 <= j <= s.len(),
        text_stored(m, s.take(j), baseline) is None,
    ensures
        text_stored(m, s, baseline) is None,
    decreases s.len() - j,
{
    if j == s.len() {
        assert(s.take(j) =~= s);
    } else {
        assert(s.take(j + 1).drop_last() =~= s.take(j));
        lemma_text_stored_none(m, s, baseline, j + 1);
    }
}

/// The 24 components starting at `base` are the two textured triangles
/// of one glyph quad: its left edge at `pen + bearing_x`, its top at
/// `baseline - bearing_y`, spanning the glyph's pixel size, with the
/// glyph's atlas UV rectangle.
#[verifier::opaque]
pub open spec fn text_quad_ok(
    vs: Seq<Rat>,
    base: int,
    pen: Q,
    info: crate::font::GlyphInfo,
    baseline: Q,
) -> bool {
    &&& 0 <= base
    &&& base + 24 <= vs.len()
    // corner values: x0 at base, y1 at base+1, x1 at base+4, y0 at
    // base+9, u0/v1 at base+2/3, u1/v0 at base+6/11
    &&& q_eq(vs[base]@, q_add(pen, q_int(info.bearing_x as int)))
    &&& q_eq(vs[base + 9]@, q_sub(baseline, q_int(info.bearing_y as int)))
    &&& q_eq(vs[base + 4]@, q_add(vs[base]@, q_int(info.width as int)))
    &&& q_eq(vs[base + 1]@, q_add(vs[base + 9]@, q_int(info.height as int)))
    &&& vs[base + 2] == info.uv_x
    &&& vs[base + 11] == info.uv_y
    &&& q_eq(vs[base + 6]@, q_add(info.uv_x@, info.uv_width@))
    &&& q_eq(vs[base + 3]@, q_add(info.uv_y@, info.uv_height@))
    // the six vertices repeat those corner values
    &&& vs[base + 5] == vs[base + 1] && vs[base + 7] == vs[base + 3]
    &&& vs[base + 8] == vs[base + 4] && vs[base + 10] == vs[base + 6]
    &&& vs[base + 12] == vs[base] && vs[base + 13] == vs[base + 1]
    &&& vs[base + 14] == vs[base + 2] && vs[base + 15] == vs[base + 3]
    &&& vs[base + 16] == vs[base + 4] && vs[base + 17] == vs[base + 9]
    &&& vs[base + 18] == vs[base + 6] && vs[base + 19] == vs[base + 11]
    &&& vs[base + 20] == vs[base] && vs[base + 21] == vs[base + 9]
    &&& vs[base + 22] == vs[base + 2] && vs[base + 23] == vs[base + 11]
}

/// A glyph quad stays pinned when the component stream grows.
proof fn lemma_text_quad_grow(
    vs: Seq<Rat>,
    ext: Seq<Rat>,
    base: int,
    pen: Q,
    info: crate::font::GlyphInfo,
    baseline: Q,
)
    requires
        text_quad_ok(vs, base, pen, info, baseline),
        vs.len() <= ext.len(),
        forall|i: int| 0 <= i < vs.len() ==> ext[i] == vs[i],
    ensures
        text_quad_ok(ext, base, pen, info, baseline),
{
    reveal(text_quad_ok);
}

/// The pen positions of a laid-out string: starting at zero, advancing
/// by each cached glyph's advance, standing still at uncached
/// characters.
pub open spec fn pen_trace_ok(
    m: Map<u32, crate::font::GlyphInfo>,
    s: Seq<char>,
    pens: Seq<Q>,
) -> bool {
    &&& pens.len() == s.len() + 1
    &&& pens[0] == q_int(0)
    &&& forall|i: int|
        0 <= i < s.len() ==> if m.contains_key((#[trigger] s[i]) as u32) {
            q_eq(pens[i + 1], q_add(pens[i], m[s[i] as u32].advance@))
        } else {
            pens[i + 1] == pens[i]
        }
}

impl ShapeRenderable {
    /// Geometry for a run of text: two textured triangles per visible
    /// cached glyph, the pen advancing by each cached glyph's advance —
    /// also for invisible ones (spaces) — while uncached characters are
    /// skipped entirely, so a full atlas degrades to missing glyphs.
    pub fn text_geometry(text: &str, atlas: &FontAtlas) -> (r: Result<
        (Geometry, Ghost<Seq<Q>>),
        GeometryError,
    >)
        requires
            crate::font::atlas_wf(*atlas),
        ensures
            r matches Ok((g, pens)) ==> {
                &&& g.drawing_mode == DrawingMode::Triangles
                &&& g.values_per_vertex == 4
                &&& g.verts@.len() == 24 * text_quad_count(atlas.glyphs@, text@)
                &&& g.vertex_count == 6 * text_quad_count(atlas.glyphs@, text@)
                &&& pen_trace_ok(atlas.glyphs@, text@, pens@)
                &&& forall|i: int|
                    0 <= i < text@.len() && glyph_visible(atlas.glyphs@, #[trigger] text@[i])
                        ==> text_quad_ok(
                        g.verts@,
                        24 * text_quad_count(atlas.glyphs@, text@.take(i)),
                        pens@[i],
                        atlas.glyphs@[text@[i] as u32],
                        q_int(atlas.font_size as int),
                    )
            },
            r is Ok <==> text_stored(
                atlas.glyphs@,
                text@,
                q_int(atlas.font_size as int),
            ) is Some,
    {
        let n = text.unicode_len();
        let mut verts: Vec<Rat> = Vec::new();
        let mut pen = Rat::zero();
        let ghost mut pens: Seq<Q> = Seq::empty().push(q_int(0));
        let baseline = Rat::from_int(atlas.font_size() as i64);
        proof {
            assert(rat_small(baseline));
        }
        let mut i: usize = 0;
        while i < n
            invariant
                crate::font::atlas_wf(*atlas),
                i <= n,
                n == text@.len(),
                rat_small(pen),
                rat_small(baseline),
                baseline@ == q_int(atlas.font_size as int),
                verts@.len() == 24 * text_quad_count(atlas.glyphs@, text@.take(i as int)),
                text_stored(atlas.glyphs@, text@.take(i as int), baseline@) == Some(pen@),
                pens.len() == i + 1,
                pens[0] == q_int(0),
                pens[i as int] == pen@,
                forall|j: int|
                    0 <= j < i ==> if atlas.glyphs@.contains_key(
                        (#[trigger] text@[j]) as u32,
                    ) {
                        q_eq(pens[j + 1], q_add(pens[j], atlas.glyphs@[text@[j] as u32].advance@))
                    } else {
                        pens[j + 1] == pens[j]
                    },
                forall|j: int|
                    0 <= j < i && glyph_visible(atlas.glyphs@, #[trigger] text@[j])
                        ==> text_quad_ok(
                        verts@,
                        24 * text_quad_count(atlas.glyphs@, text@.take(j)),
                        pens[j],
                        atlas.glyphs@[text@[j] as u32],
                        baseline@,
                    ),
            decreases n - i,
        {
            let ch = text.get_char(i);
            let ghost prefix2 = text@.take(i as int + 1);
            proof {
                assert(prefix2.drop_last() =~= text@.take(i as int));
                assert(prefix2.last() == text@[i as int]);
            }
            match atlas.cached_glyph(ch) {
                Some(info) => {
                    if info.width != 0 && info.height != 0 {
                        let bx = Rat::from_int(info.bearing_x as i64);
                        let by = Rat::from_int(info.bearing_y as i64);
                        let gw = Rat::from_int(info.width as i64);
                        let gh = Rat::from_int(info.height as i64);
                        let x0 = match pen.checked_add(bx) {
                            Some(v) => v,
                            None => {
                                proof {
                                    lemma_text_stored_none(
                                        atlas.glyphs@,
                                        text@,
                                        baseline@,
                                        i as int + 1,
                                    );
                                }
                                return Err(GeometryError::Unrepresentable);
                            },
                        };
                        proof {
                            assert(stored(q_add(pen@, q_int(info.bearing_x as int)))
                                == Some(x0@));
                        }
                        let y0 = match baseline.checked_sub(by) {
                            Some(v) => v,
                            None => {
                                proof {
                                    lemma_text_stored_none(
                                        atlas.glyphs@,
                                        text@,
                                        baseline@,
                                        i as int + 1,
                                    );
                                }
                                return Err(GeometryError::Unrepresentable);
                            },
                        };
                        proof {
                            assert(stored(q_sub(baseline@, q_int(info.bearing_y as int)))
                                == Some(y0@));
                        }
                        let x1 = match x0.checked_add(gw) {
                            Some(v) => v,
                            None => {
                                proof {
                                    lemma_text_stored_none(
                                        atlas.glyphs@,
                                        text@,
                                        baseline@,
                                        i as int + 1,
                                    );
                                }
                                return Err(GeometryError::Unrepresentable);
                            },
                        };
                        proof {
                            assert(stored(q_add(x0@, q_int(info.width as int))) == Some(x1@));
                        }
                        let y1 = match y0.checked_add(gh) {
                            Some(v) => v,
                            None => {
                                proof {
                                    lemma_text_stored_none(
                                        atlas.glyphs@,
                                        text@,
                                        baseline@,
                                        i as int + 1,
                                    );
                                }
                                return Err(GeometryError::Unrepresentable);
                            },
                        };
                        proof {
                            assert(stored(q_add(y0@, q_int(info.height as int))) == Some(y1@));
                        }
                        let u0 = info.uv_x;
                        let v0 = info.uv_y;
                        let u1 = match info.uv_x.checked_add(info.uv_width) {
                            Some(v) => v,
                            None => {
                                proof {
                                    lemma_text_stored_none(
                                        atlas.glyphs@,
                                        text@,
                                        baseline@,
                                        i as int + 1,
                                    );
                                }
                                return Err(GeometryError::Unrepresentable);
                            },
                        };
                        proof {
                            assert(stored(q_add(info.uv_x@, info.uv_width@)) == Some(u1@));
                        }
                        let v1 = match info.uv_y.checked_add(info.uv_height) {
                            Some(v) => v,
                            None => {
                                proof {
                                    lemma_text_stored_none(
                                        atlas.glyphs@,
                                        text@,
                                        baseline@,
                                        i as int + 1,
                                    );
                                }
                                return Err(GeometryError::Unrepresentable);
                            },
                        };
                        proof {
                            assert(stored(q_add(info.uv_y@, info.uv_height@)) == Some(v1@));
                        }
                        let ghost qbase = verts@.len() as int;
                        let ghost vprev = verts@;
                        verts.push(x0);
                        verts.push(y1);
                        verts.push(u0);
                        verts.push(v1);
                        verts.push(x1);
                        verts.push(y1);
                        verts.push(u1);
                        verts.push(v1);
                        verts.push(x1);
                        verts.push(y0);
                        verts.push(u1);
                        verts.push(v0);
                        verts.push(x0);
                        verts.push(y1);
                        verts.push(u0);
                        verts.push(v1);
                        verts.push(x1);
                        verts.push(y0);
                        verts.push(u1);
                        verts.push(v0);
                        verts.push(x0);
                        verts.push(y0);
                        verts.push(u0);
                        verts.push(v0);
                        proof {
                            reveal(text_quad_ok);
                            assert(verts@[qbase] == x0 && verts@[qbase + 1] == y1);
                            assert(verts@[qbase + 2] == u0 && verts@[qbase + 3] == v1);
                            assert(verts@[qbase + 4] == x1 && verts@[qbase + 5] == y1);
                            assert(verts@[qbase + 6] == u1 && verts@[qbase + 7] == v1);
                            assert(verts@[qbase + 8] == x1 && verts@[qbase + 9] == y0);
                            assert(verts@[qbase + 10] == u1 && verts@[qbase + 11] == v0);
                            assert(verts@[qbase + 12] == x0 && verts@[qbase + 13] == y1);
                            assert(verts@[qbase + 14] == u0 && verts@[qbase + 15] == v1);
                            assert(verts@[qbase + 16] == x1 && verts@[qbase + 17] == y0);
                            assert(verts@[qbase + 18] == u1 && verts@[qbase + 19] == v0);
                            assert(verts@[qbase + 20] == x0 && verts@[qbase + 21] == y0);
                            assert(verts@[qbase + 22] == u0 && verts@[qbase + 23] == v0);
                            assert(text_quad_ok(verts@, qbase, pen@, info, baseline@));
                            assert forall|i2: int| 0 <= i2 < vprev.len() implies verts@[i2]
                                == vprev[i2] by {}
                            assert forall|j: int|
                                0 <= j < i && glyph_visible(atlas.glyphs@, #[trigger] text@[j])
                                implies text_quad_ok(
                                verts@,
                                24 * text_quad_count(atlas.glyphs@, text@.take(j)),
                                pens[j],
                                atlas.glyphs@[text@[j] as u32],
                                baseline@,
                            ) by {
                                lemma_text_quad_grow(
                                    vprev,
                                    verts@,
                                    24 * text_quad_count(atlas.glyphs@, text@.take(j)),
                                    pens[j],
                                    atlas.glyphs@[text@[j] as u32],
                                    baseline@,
                                );
                            }
                        }
                    }
                    pen = match pen.checked_add(info.advance) {
                        Some(v) => v,
                        None => {
                            proof {
                                lemma_text_stored_none(
                                    atlas.glyphs@,
                                    text@,
                                    baseline@,
                                    i as int + 1,
                                );
                            }
                            return Err(GeometryError::Unrepresentable);
                        },
                    };
                    proof {
                        pens = pens.push(pen@);
                    }
                },
                None => {
                    proof {
                        pens = pens.push(pen@);
                    }
                },
            }
            i = i + 1;
        }
        proof {
            assert(text@.take(n as int) =~= text@);
        }
        let mut geometry = Geometry::new(DrawingMode::Triangles);
        geometry.add_buffer(verts, 4);
        geometry.add_vertex_attribute(Attribute::new(0, 2, 4, 0));
        geometry.add_vertex_attribute(Attribute::new(1, 2, 4, 2));
        Ok((geometry, Ghost(pens)))
    }
}

/// Run-time check of the guaranteed-exact range.
fn rat_safe_check(r: Rat) -> (b: bool)
    ensures
        b == rat_safe(r),
{
    -crate::camera::SAFE_MAX <= r.num && r.num <= crate::camera::SAFE_MAX && 0 < r.den && r.den
        <= crate::camera::SAFE_MAX
}

/// Translate every point by `(dx, dy)`, exactly.
fn translate_points(pts: &Vec<(Rat, Rat)>, dx: Rat, dy: Rat) -> (r: Option<Vec<(Rat, Rat)>>)
    requires
        points_small(pts@),
        rat_small(dx),
        rat_small(dy),
    ensures
        r matches Some(out) ==> {
            &&& out@.len() == pts@.len()
            &&& points_small(out@)
            &&& forall|i: int|
                0 <= i < pts@.len() ==> q_eq(
                    (#[trigger] out@[i]).0@,
                    q_add(pts@[i].0@, dx@),
                ) && q_eq(out@[i].1@, q_add(pts@[i].1@, dy@))
        },
{
    let mut out: Vec<(Rat, Rat)> = Vec::new();
    let n = pts.len();
    let mut i: usize = 0;
    while i < n
        invariant
            i <= n,
            n == pts@.len(),
            points_small(pts@),
            rat_small(dx),
            rat_small(dy),
            out@.len() == i,
            points_small(out@),
            forall|j: int|
                0 <= j < i ==> q_eq((#[trigger] out@[j]).0@, q_add(pts@[j].0@, dx@)) && q_eq(
                    out@[j].1@,
                    q_add(pts@[j].1@, dy@),
                ),
        decreases n - i,
    {
        let p = pts[i];
        let px = match p.0.checked_add(dx) {
            Some(v) => v,
            None => return None,
        };
        let py = match p.1.checked_add(dy) {
            Some(v) => v,
            None => return None,
        };
        out.push((px, py));
        proof {
            assert(out@[i as int] == (px, py));
        }
        i = i + 1;
    }
    Some(out)
}

/// Shift every point to be relative to `origin`, exactly.
fn relative_points(pts: &Vec<(Rat, Rat)>, origin: (Rat, Rat)) -> (r: Option<Vec<(Rat, Rat)>>)
    requires
        points_small(pts@),
        rat_small(origin.0),
        rat_small(origin.1),
    ensures
        r matches Some(out) ==> {
            &&& out@.len() == pts@.len()
            &&& points_small(out@)
            &&& forall|i: int|
                0 <= i < pts@.len() ==> q_eq(
                    (#[trigger] out@[i]).0@,
                    q_sub(pts@[i].0@, origin.0@),
                ) && q_eq(out@[i].1@, q_sub(pts@[i].1@, origin.1@))
        },
{
    let mut out: Vec<(Rat, Rat)> = Vec::new();
    let n = pts.len();
    let mut i: usize = 0;
    while i < n
        invariant
            i <= n,
            n == pts@.len(),
            points_small(pts@),
            rat_small(origin.0),
            rat_small(origin.1),
            out@.len() == i,
            points_small(out@),
            forall|j: int|
                0 <= j < i ==> q_eq((#[trigger] out@[j]).0@, q_sub(pts@[j].0@, origin.0@))
                    && q_eq(out@[j].1@, q_sub(pts@[j].1@, origin.1@)),
        decreases n - i,
    {
        let p = pts[i];
        let px = match p.0.checked_sub(origin.0) {
            Some(v) => v,
            None => return None,
        };
        let py = match p.1.checked_sub(origin.1) {
            Some(v) => v,
            None => return None,
        };
        out.push((px, py));
        proof {
            assert(out@[i as int] == (px, py));
        }
        i = i + 1;
    }
    Some(out)
}

/// Check that every point is within the guaranteed-exact stroke range.
fn points_safe_check(pts: &Vec<(Rat, Rat)>) -> (b: bool)
    requires
        points_small(pts@),
    ensures
        b ==> points_safe(pts@),
{
    let n = pts.len();
    let mut i: usize = 0;
    while i < n
        invariant
            i <= n,
            n == pts@.len(),
            forall|j: int|
                0 <= j < i ==> rat_safe((#[trigger] pts@[j]).0) && rat_safe(pts@[j].1),
        decreases n - i,
    {
        let p = pts[i];
        if !(rat_safe_check(p.0) && rat_safe_check(p.1)) {
            return false;
        }
        i = i + 1;
    }
    true
}

/// How a renderable is to be drawn this frame.
#[derive(Clone, Copy, Debug, PartialEq, Eq, Structural)]
pub enum DrawCommand {
    /// One draw at the anchor offset.
    Single { offset_x: Rat, offset_y: Rat, scale: Rat },
    /// One instanced draw of `count` copies; the anchor is ignored and
    /// positions come from the instance stream.
    Instanced { count: usize, scale: Rat },
}

impl ShapeRenderable {
    fn new(x: Rat, y: Rat, mesh: Mesh, shape: ShapeKind) -> (r: ShapeRenderable)
        ensures
            r.x == x,
            r.y == y,
            r.scale@ == q_int(1),
            r.mesh == mesh,
            r.shape == shape,
    {
        ShapeRenderable { x, y, scale: Rat::one(), mesh, shape }
    }

    /// Move the shape's anchor; the geometry is untouched.
    pub fn set_position(&mut self, x: Rat, y: Rat)
        requires
            rat_small(x),
            rat_small(y),
        ensures
            *final(self) == (ShapeRenderable { x, y, ..*old(self) }),
    {
        self.x = x;
        self.y = y;
    }

    /// Set the uniform draw-time scale.
    pub fn set_scale(&mut self, scale: Rat)
        requires
            rat_small(scale),
        ensures
            *final(self) == (ShapeRenderable { scale, ..*old(self) }),
    {
        self.scale = scale;
    }

    /// The uniform draw-time scale.
    pub fn scale(&self) -> (r: Rat)
        ensures
            r == self.scale,
    {
        self.scale
    }

    /// The draw dispatch rule: a renderable with live instances draws
    /// instanced, its own anchor ignored; otherwise it draws once at its
    /// anchor.
    pub fn draw_command(&self) -> (r: DrawCommand)
        ensures
            self.mesh.geometry.instance_count > 0 ==> r == (DrawCommand::Instanced {
                count: self.mesh.geometry.instance_count,
                scale: self.scale,
            }),
            self.mesh.geometry.instance_count == 0 ==> r == (DrawCommand::Single {
                offset_x: self.x,
                offset_y: self.y,
                scale: self.scale,
            }),
    {
        if self.mesh.geometry.instance_count() > 0 {
            DrawCommand::Instanced {
                count: self.mesh.geometry.instance_count(),
                scale: self.scale,
            }
        } else {
            DrawCommand::Single { offset_x: self.x, offset_y: self.y, scale: self.scale }
        }
    }

    /// Allocate a per-instance position stream for up to `capacity`
    /// instances.
    pub fn create_multiple_instances(&mut self, capacity: usize)
        ensures
            final(self).mesh.geometry.instance_xy_capacity == Some(capacity),
            final(self).mesh.geometry.instance_count == old(self).mesh.geometry.instance_count,
            final(self).x == old(self).x && final(self).y == old(self).y && final(self).scale
                == old(self).scale,
    {
        self.mesh.geometry.enable_instancing_xy(capacity);
    }

    /// Replace the instance positions; the live instance count becomes
    /// exactly the number given, whatever the capacity was.
    pub fn set_instance_positions(&mut self, positions: &[crate::camera::Vec2])
        ensures
            old(self).mesh.geometry.instance_xy_capacity is Some ==> {
                &&& final(self).mesh.geometry.instance_count == positions@.len()
                &&& final(self).mesh.geometry.instance_positions@ == positions@
            },
            old(self).mesh.geometry.instance_xy_capacity is None ==> final(self).mesh.geometry
                == old(self).mesh.geometry,
            final(self).x == old(self).x && final(self).y == old(self).y && final(self).scale
                == old(self).scale,
    {
        self.mesh.geometry.update_instance_xy(positions);
    }

    /// Drop all live instances, keeping the allocation for reuse.
    pub fn clear_instances(&mut self)
        ensures
            final(self).mesh.geometry.instance_count == 0,
            final(self).x == old(self).x && final(self).y == old(self).y && final(self).scale
                == old(self).scale,
    {
        self.mesh.geometry.clear_instancing();
    }

    /// A stroked path from pre-computed absolute points, anchored at the
    /// first of them.
    fn polyline_from_points(
        points: &Vec<(Rat, Rat)>,
        shape: ShapeKind,
        stroke: Color,
        stroke_width: Rat,
    ) -> (r: Result<ShapeRenderable, GeometryError>)
        requires
            points_small(points@),
            points@.len() >= 1,
            rat_small(stroke_width),
        ensures
            r matches Ok(sr) ==> {
                &&& sr.x == points@[0].0
                &&& sr.y == points@[0].1
                &&& sr.scale@ == q_int(1)
                &&& sr.mesh.color == Some(stroke)
                &&& sr.mesh.shader == ShaderKind::Shape
                &&& sr.mesh.geometry.drawing_mode == DrawingMode::Triangles
            },
    {
        let origin = points[0];
        proof {
            assert(rat_small(points@[0].0) && rat_small(points@[0].1));
        }
        let rel = match relative_points(points, origin) {
            Some(v) => v,
            None => return Err(GeometryError::Unrepresentable),
        };
        let rel = dedup_points(&rel);
        if rel.len() < 2 {
            return Err(GeometryError::Degenerate);
        }
        if !(points_safe_check(&rel) && rat_safe_check(stroke_width)) {
            return Err(GeometryError::Unrepresentable);
        }
        let (geometry, _joins) = Self::polyline_geometry(rel.as_slice(), stroke_width)?;
        let mesh = Mesh::with_color(ShaderKind::Shape, geometry, Some(stroke));
        Ok(Self::new(origin.0, origin.1, mesh, shape))
    }
}

/// The flat point-list stream of a translated-then-re-anchored point
/// set holds exactly the points shifted relative to the first.
proof fn lemma_multi_points_content(
    pts: Seq<(Rat, Rat)>,
    x: Rat,
    y: Rat,
    abs: Seq<(Rat, Rat)>,
    rel: Seq<(Rat, Rat)>,
    verts: Seq<Rat>,
)
    requires
        pts.len() >= 1,
        abs.len() == pts.len(),
        rel.len() == pts.len(),
        points_small(pts),
        points_small(abs),
        rat_small(x),
        rat_small(y),
        forall|i: int|
            0 <= i < pts.len() ==> q_eq((#[trigger] abs[i]).0@, q_add(pts[i].0@, x@)) && q_eq(
                abs[i].1@,
                q_add(pts[i].1@, y@),
            ),
        forall|i: int|
            0 <= i < pts.len() ==> q_eq((#[trigger] rel[i]).0@, q_sub(abs[i].0@, abs[0].0@))
                && q_eq(rel[i].1@, q_sub(abs[i].1@, abs[0].1@)),
        verts == flat_points(rel),
    ensures
        verts.len() == 2 * pts.len(),
        forall|i: int|
            0 <= i < pts.len() ==> q_eq(
                (#[trigger] verts[2 * i])@,
                q_sub(q_add(pts[i].0@, x@), q_add(pts[0].0@, x@)),
            ) && q_eq(verts[2 * i + 1]@, q_sub(q_add(pts[i].1@, y@), q_add(pts[0].1@, y@))),
{
    broadcast use vstd::arithmetic::mul::lemma_mul_nonzero;

    lemma_flat_points_len(rel);
    assert forall|i: int| 0 <= i < pts.len() implies q_eq(
        (#[trigger] verts[2 * i])@,
        q_sub(q_add(pts[i].0@, x@), q_add(pts[0].0@, x@)),
    ) && q_eq(verts[2 * i + 1]@, q_sub(q_add(pts[i].1@, y@), q_add(pts[0].1@, y@))) by {
        lemma_flat_points_index(rel, i);
        assert(rat_small(abs[i].0) && rat_small(abs[i].1));
        assert(rat_small(abs[0].0) && rat_small(abs[0].1));
        assert(q_sub(abs[i].0@, abs[0].0@).d != 0 && q_sub(abs[i].1@, abs[0].1@).d
            != 0) by (nonlinear_arith)
            requires
                abs[i].0@.d > 0,
                abs[i].1@.d > 0,
                abs[0].0@.d > 0,
                abs[0].1@.d > 0,
        ;
        assert(rat_small(pts[i].0) && rat_small(pts[i].1));
        assert(q_sub(q_add(pts[i].0@, x@), abs[0].0@).d != 0 && q_sub(
            q_add(pts[i].1@, y@),
            abs[0].1@,
        ).d != 0) by (nonlinear_arith)
            requires
                pts[i].0@.d > 0,
                pts[i].1@.d > 0,
                x@.d > 0,
                y@.d > 0,
                abs[0].0@.d > 0,
                abs[0].1@.d > 0,
        ;
        lemma_q_sub_congr(abs[i].0@, q_add(pts[i].0@, x@), abs[0].0@);
        lemma_q_eq_trans(
            rel[i].0@,
            q_sub(abs[i].0@, abs[0].0@),
            q_sub(q_add(pts[i].0@, x@), abs[0].0@),
        );
        lemma_q_sub_congr_right(q_add(pts[i].0@, x@), abs[0].0@, q_add(pts[0].0@, x@));
        lemma_q_eq_trans(
            rel[i].0@,
            q_sub(q_add(pts[i].0@, x@), abs[0].0@),
            q_sub(q_add(pts[i].0@, x@), q_add(pts[0].0@, x@)),
        );
        lemma_q_sub_congr(abs[i].1@, q_add(pts[i].1@, y@), abs[0].1@);
        lemma_q_eq_trans(
            rel[i].1@,
            q_sub(abs[i].1@, abs[0].1@),
            q_sub(q_add(pts[i].1@, y@), abs[0].1@),
        );
        lemma_q_sub_congr_right(q_add(pts[i].1@, y@), abs[0].1@, q_add(pts[0].1@, y@));
        lemma_q_eq_trans(
            rel[i].1@,
            q_sub(q_add(pts[i].1@, y@), abs[0].1@),
            q_sub(q_add(pts[i].1@, y@), q_add(pts[0].1@, y@)),
        );
    }
}

/// The preconditions `from_shape` puts on each descriptor: the bounds the
/// exact arithmetic needs, the shape-specific degeneracy rules, and an
/// atlas for text. Images carry an external texture, which only the
/// embedding can load, so they are excluded here.
pub open spec fn buildable(shape: ShapeKind, atlas: Option<&FontAtlas>) -> bool {
    match shape {
        ShapeKind::Point => true,
        ShapeKind::MultiPoint(mp) => mp.points@.len() >= 1 && points_small(mp.points@),
        ShapeKind::Line(l) => rat_small(l.x2) && rat_small(l.y2),
        ShapeKind::Polyline(p) => p.points@.len() >= 2 && points_small(p.points@),
        ShapeKind::Triangle(t) => rat_small(t.vertices[0].0) && rat_small(t.vertices[0].1)
            && rat_small(t.vertices[1].0) && rat_small(t.vertices[1].1) && rat_small(
            t.vertices[2].0,
        ) && rat_small(t.vertices[2].1),
        ShapeKind::Rectangle(r) => rat_small(r.width) && rat_small(r.height),
        ShapeKind::RoundedRectangle(rr) => rat_small(rr.width) && rat_small(rr.height)
            && rat_small(rr.radius) && q_le(q_mul(rr.radius@, q_int(2)), rr.width@) && q_le(
            q_mul(rr.radius@, q_int(2)),
            rr.height@,
        ),
        ShapeKind::Polygon(p) => p.points@.len() >= 3 && points_small(p.points@),
        ShapeKind::Circle(c) => rat_small(c.radius),
        ShapeKind::Ellipse(e) => rat_small(e.radius_x) && rat_small(e.radius_y),
        ShapeKind::Arc(a) => rat_small(a.radius) && rat_small(a.start_angle) && rat_small(
            a.end_angle,
        ),
        ShapeKind::Image(_) => false,
        ShapeKind::Text(_) => atlas matches Some(at) && crate::font::atlas_wf(*at),
    }
}

impl ShapeRenderable {

    /// A point list anchored at its first point, the rest stored
    /// relative to it.
    fn multi_points(x: Rat, y: Rat, mp: MultiPoint, fill: Color) -> (r: Result<
        ShapeRenderable,
        GeometryError,
    >)
        requires
            rat_small(x),
            rat_small(y),
            mp.points@.len() >= 1,
            points_small(mp.points@),
        ensures
            r matches Ok(sr) ==> {
                &&& sr.scale@ == q_int(1)
                &&& sr.mesh.shader == ShaderKind::Point
                &&& sr.mesh.color == Some(fill)
                &&& sr.mesh.geometry.drawing_mode == DrawingMode::Points
                &&& q_eq(sr.x@, q_add(mp.points@[0].0@, x@))
                &&& q_eq(sr.y@, q_add(mp.points@[0].1@, y@))
                &&& sr.mesh.geometry.verts@.len() == 2 * mp.points@.len()
                &&& forall|i: int|
                    0 <= i < mp.points@.len() ==> q_eq(
                        (#[trigger] sr.mesh.geometry.verts@[2 * i])@,
                        q_sub(q_add(mp.points@[i].0@, x@), q_add(mp.points@[0].0@, x@)),
                    ) && q_eq(
                        sr.mesh.geometry.verts@[2 * i + 1]@,
                        q_sub(q_add(mp.points@[i].1@, y@), q_add(mp.points@[0].1@, y@)),
                    )
            },
    {
        let abs = match translate_points(&mp.points, x, y) {
            Some(v) => v,
            None => return Err(GeometryError::Unrepresentable),
        };
        let origin = abs[0];
        let rel = match relative_points(&abs, origin) {
            Some(v) => v,
            None => return Err(GeometryError::Unrepresentable),
        };
        let geometry = Self::point_list_geometry(rel.as_slice());
        proof {
            lemma_multi_points_content(mp.points@, x, y, abs@, rel@, geometry.verts@);
        }
        let mesh = Mesh::with_color(ShaderKind::Point, geometry, Some(fill));
        Ok(Self::new(origin.0, origin.1, mesh, ShapeKind::MultiPoint(mp)))
    }

    /// A single stroked segment anchored at its start.
    fn line(x: Rat, y: Rat, line: Line, stroke: Color, stroke_width: Rat) -> (r: Result<
        ShapeRenderable,
        GeometryError,
    >)
        requires
            rat_small(x),
            rat_small(y),
            rat_small(line.x2),
            rat_small(line.y2),
            rat_small(stroke_width),
        ensures
            r matches Ok(sr) ==> {
                &&& sr.scale@ == q_int(1)
                &&& sr.x == x && sr.y == y
                &&& sr.mesh.shader == ShaderKind::Shape
                &&& sr.mesh.color == Some(stroke)
                &&& sr.mesh.geometry.drawing_mode == DrawingMode::Triangles
            },
    {
        let rel_x2 = match line.x2.checked_sub(x) {
            Some(v) => v,
            None => return Err(GeometryError::Unrepresentable),
        };
        let rel_y2 = match line.y2.checked_sub(y) {
            Some(v) => v,
            None => return Err(GeometryError::Unrepresentable),
        };
        if !(rat_safe_check(rel_x2) && rat_safe_check(rel_y2) && rat_safe_check(
            stroke_width,
        )) {
            return Err(GeometryError::Unrepresentable);
        }
        let (geometry, _o) = Self::line_geometry(
            Rat::zero(),
            Rat::zero(),
            rel_x2,
            rel_y2,
            stroke_width,
        )?;
        let mesh = Mesh::with_color(ShaderKind::Shape, geometry, Some(stroke));
        Ok(Self::new(x, y, mesh, ShapeKind::Line(line)))
    }

    /// A filled polygon fan anchored at its first point.
    fn polygon(x: Rat, y: Rat, polygon: Polygon, fill: Color) -> (r: Result<
        ShapeRenderable,
        GeometryError,
    >)
        requires
            rat_small(x),
            rat_small(y),
            polygon.points@.len() >= 3,
            points_small(polygon.points@),
        ensures
            r matches Ok(sr) ==> {
                &&& sr.scale@ == q_int(1)
                &&& sr.mesh.shader == ShaderKind::Shape
                &&& sr.mesh.color == Some(fill)
                &&& sr.mesh.geometry.drawing_mode == DrawingMode::TriangleFan
                &&& q_eq(sr.x@, q_add(polygon.points@[0].0@, x@))
                &&& q_eq(sr.y@, q_add(polygon.points@[0].1@, y@))
            },
    {
        let abs = match translate_points(&polygon.points, x, y) {
            Some(v) => v,
            None => return Err(GeometryError::Unrepresentable),
        };
        let origin = abs[0];
        let rel = match relative_points(&abs, origin) {
            Some(v) => v,
            None => return Err(GeometryError::Unrepresentable),
        };
        let geometry = Self::polygon_geometry(rel.as_slice());
        let mesh = Mesh::with_color(ShaderKind::Shape, geometry, Some(fill));
        Ok(Self::new(origin.0, origin.1, mesh, ShapeKind::Polygon(polygon)))
    }

    /// A run of text laid out against the atlas's cached glyphs.
    fn text(x: Rat, y: Rat, text: Text, fill: Color, at: &FontAtlas) -> (r: Result<
        ShapeRenderable,
        GeometryError,
    >)
        requires
            rat_small(x),
            rat_small(y),
            crate::font::atlas_wf(*at),
        ensures
            r matches Ok(sr) ==> {
                &&& sr.scale@ == q_int(1)
                &&& sr.x == x && sr.y == y
                &&& sr.mesh.shader == ShaderKind::Text
                &&& sr.mesh.color == Some(fill)
                &&& sr.mesh.geometry.drawing_mode == DrawingMode::Triangles
            },
    {
        let (geometry, _pens) = Self::text_geometry(text.content.as_str(), at)?;
        let mut mesh = Mesh::with_texture(ShaderKind::Text, geometry, None);
        mesh.color = Some(fill);
        Ok(Self::new(x, y, mesh, ShapeKind::Text(text)))
    }

    /// Build a renderable from a shape descriptor and a style, anchored
    /// at `(x, y)`. Stroked shapes take the stroke color and width (one
    /// pixel when unset); filled shapes take the fill color (white when
    /// unset). Text lays out against the given atlas's cached glyphs.
    ///
    /// Degenerate geometry input is an error at build time: coincident
    /// consecutive polyline points are dropped, and a stroked path left
    /// with fewer than two distinct points is refused as `Degenerate`
    /// rather than silently drawn as nothing.
    #[verifier::rlimit(100)]
    #[verifier::spinoff_prover]
    pub fn from_shape(
        x: Rat,
        y: Rat,
        shape: ShapeKind,
        style: ShapeStyle,
        atlas: Option<&FontAtlas>,
    ) -> (r: Result<ShapeRenderable, GeometryError>)
        requires
            rat_small(x),
            rat_small(y),
            style.stroke_width matches Some(w) ==> rat_small(w),
            buildable(shape, atlas),
        ensures
            r matches Ok(sr) ==> {
                &&& sr.scale@ == q_int(1)
                &&& sr.mesh.color is Some
                &&& built_as(sr, x, y, shape, style)
            },
            shape is Point || shape is Triangle || shape is Rectangle ==> r is Ok,
            shape matches ShapeKind::Circle(c) ==> (r is Ok <==> forall|i: int|
                0 <= i <= 100 ==> (#[trigger] ellipse_sample_stored(
                    c.radius@,
                    c.radius@,
                    i,
                    100,
                )) is Some),
            shape matches ShapeKind::Ellipse(e) ==> (r is Ok <==> forall|i: int|
                0 <= i <= 64 ==> (#[trigger] ellipse_sample_stored(
                    e.radius_x@,
                    e.radius_y@,
                    i,
                    64,
                )) is Some),
            shape matches ShapeKind::RoundedRectangle(rr) ==> (r is Ok <==> rrect_stored(
                rr.width@,
                rr.height@,
                rr.radius@,
                8,
            )),
    {
        let fill = match style.fill {
            Some(c) => c,
            None => Color::white(),
        };
        let stroke = match style.stroke_color {
            Some(c) => c,
            None => Color::white(),
        };
        let stroke_width = match style.stroke_width {
            Some(w) => w,
            None => Rat::one(),
        };
        match shape {
            ShapeKind::Point => {
                let geometry = Self::point_geometry();
                let mesh = Mesh::with_color(ShaderKind::Point, geometry, Some(fill));
                Ok(Self::new(x, y, mesh, ShapeKind::Point))
            },
            ShapeKind::MultiPoint(mp) => Self::multi_points(x, y, mp, fill),
            ShapeKind::Line(line) => Self::line(x, y, line, stroke, stroke_width),
            ShapeKind::Polyline(poly_line) => {
                let abs = match translate_points(&poly_line.points, x, y) {
                    Some(v) => v,
                    None => return Err(GeometryError::Unrepresentable),
                };
                Self::polyline_from_points(
                    &abs,
                    ShapeKind::Polyline(poly_line),
                    stroke,
                    stroke_width,
                )
            },
            ShapeKind::Triangle(triangle) => {
                let geometry = Self::triangle_geometry(&triangle.vertices);
                let mesh = Mesh::with_color(ShaderKind::Shape, geometry, Some(fill));
                Ok(Self::new(x, y, mesh, ShapeKind::Triangle(triangle)))
            },
            ShapeKind::Rectangle(rect) => {
                let geometry = Self::rectangle_geometry(rect.width, rect.height);
                let mesh = Mesh::with_color(ShaderKind::Shape, geometry, Some(fill));
                Ok(Self::new(x, y, mesh, ShapeKind::Rectangle(rect)))
            },
            ShapeKind::RoundedRectangle(rr) => {
                let geometry = Self::rounded_rectangle_geometry(rr.width, rr.height, rr.radius, 8)?;
                let mesh = Mesh::with_color(ShaderKind::Shape, geometry, Some(fill));
                Ok(Self::new(x, y, mesh, ShapeKind::RoundedRectangle(rr)))
            },
            ShapeKind::Polygon(polygon) => Self::polygon(x, y, polygon, fill),
            ShapeKind::Circle(circle) => {
                let geometry = Self::circle_geometry(circle.radius, 100)?;
                let mesh = Mesh::with_color(ShaderKind::Shape, geometry, Some(fill));
                Ok(Self::new(x, y, mesh, ShapeKind::Circle(circle)))
            },
            ShapeKind::Ellipse(ellipse) => {
                let geometry = Self::ellipse_geometry(ellipse.radius_x, ellipse.radius_y, 64)?;
                let mesh = Mesh::with_color(ShaderKind::Shape, geometry, Some(fill));
                Ok(Self::new(x, y, mesh, ShapeKind::Ellipse(ellipse)))
            },
            ShapeKind::Arc(arc) => {
                let (abs, _ths) = arc_points(
                    x,
                    y,
                    arc.radius,
                    arc.start_angle,
                    arc.end_angle,
                    64,
                )?;
                Self::polyline_from_points(&abs, ShapeKind::Arc(arc), stroke, stroke_width)
            },
            ShapeKind::Image(_) => {
                // excluded by the precondition: the texture must be
                // loaded by the embedding
                proof {
                    assert(false);
                }
                Err(GeometryError::Degenerate)
            },
            ShapeKind::Text(text) => {
                let at = match atlas {
                    Some(at) => at,
                    None => {
                        proof {
                            assert(false);
                        }
                        return Err(GeometryError::Degenerate);
                    },
                };
                Self::text(x, y, text, fill, at)
            },
        }
    }
}

/// What `from_shape` promises of the renderable it builds, by variant:
/// the shader family, which of the style's colors is used (stroked
/// variants take the stroke color, the rest the fill), the anchor, and
/// the topology of the built geometry.
pub open spec fn built_as(
    sr: ShapeRenderable,
    x: Rat,
    y: Rat,
    shape: ShapeKind,
    style: ShapeStyle,
) -> bool {
    match shape {
        ShapeKind::Point => sr.x == x && sr.y == y && sr.mesh.shader == ShaderKind::Point
            && styled_fill(sr, style) && sr.mesh.geometry.drawing_mode == DrawingMode::Points,
        ShapeKind::MultiPoint(mp) => sr.mesh.shader == ShaderKind::Point && styled_fill(
            sr,
            style,
        ) && sr.mesh.geometry.drawing_mode == DrawingMode::Points && q_eq(
            sr.x@,
            q_add(mp.points@[0].0@, x@),
        ) && q_eq(sr.y@, q_add(mp.points@[0].1@, y@))
            && sr.mesh.geometry.verts@.len() == 2 * mp.points@.len() && (forall|i: int|
            0 <= i < mp.points@.len() ==> q_eq(
                (#[trigger] sr.mesh.geometry.verts@[2 * i])@,
                q_sub(q_add(mp.points@[i].0@, x@), q_add(mp.points@[0].0@, x@)),
            ) && q_eq(
                sr.mesh.geometry.verts@[2 * i + 1]@,
                q_sub(q_add(mp.points@[i].1@, y@), q_add(mp.points@[0].1@, y@)),
            )),
        ShapeKind::Line(_) => sr.x == x && sr.y == y && sr.mesh.shader == ShaderKind::Shape
            && styled_stroke(sr, style) && sr.mesh.geometry.drawing_mode
            == DrawingMode::Triangles,
        ShapeKind::Polyline(p) => sr.mesh.shader == ShaderKind::Shape && styled_stroke(sr, style)
            && sr.mesh.geometry.drawing_mode == DrawingMode::Triangles && q_eq(
            sr.x@,
            q_add(p.points@[0].0@, x@),
        ) && q_eq(sr.y@, q_add(p.points@[0].1@, y@)),
        ShapeKind::Triangle(_) => sr.x == x && sr.y == y && sr.mesh.shader == ShaderKind::Shape
            && styled_fill(sr, style) && sr.mesh.geometry.drawing_mode
            == DrawingMode::Triangles,
        ShapeKind::Rectangle(_) => sr.x == x && sr.y == y && sr.mesh.shader == ShaderKind::Shape
            && styled_fill(sr, style) && sr.mesh.geometry.drawing_mode
            == DrawingMode::TriangleStrip,
        ShapeKind::RoundedRectangle(_) => sr.x == x && sr.y == y && sr.mesh.shader
            == ShaderKind::Shape && styled_fill(sr, style) && sr.mesh.geometry.drawing_mode
            == DrawingMode::TriangleFan,
        ShapeKind::Polygon(p) => sr.mesh.shader == ShaderKind::Shape && styled_fill(sr, style)
            && sr.mesh.geometry.drawing_mode == DrawingMode::TriangleFan && q_eq(
            sr.x@,
            q_add(p.points@[0].0@, x@),
        ) && q_eq(sr.y@, q_add(p.points@[0].1@, y@)),
        ShapeKind::Circle(_) => sr.x == x && sr.y == y && sr.mesh.shader == ShaderKind::Shape
            && styled_fill(sr, style) && sr.mesh.geometry.drawing_mode
            == DrawingMode::TriangleFan,
        ShapeKind::Ellipse(_) => sr.x == x && sr.y == y && sr.mesh.shader == ShaderKind::Shape
            && styled_fill(sr, style) && sr.mesh.geometry.drawing_mode
            == DrawingMode::TriangleFan,
        ShapeKind::Arc(_) => sr.mesh.shader == ShaderKind::Shape && styled_stroke(sr, style)
            && sr.mesh.geometry.drawing_mode == DrawingMode::Triangles,
        ShapeKind::Image(_) => false,
        ShapeKind::Text(_) => sr.x == x && sr.y == y && sr.mesh.shader == ShaderKind::Text
            && styled_fill(sr, style) && sr.mesh.geometry.drawing_mode
            == DrawingMode::Triangles,
    }
}

/// Pure white with full alpha: the default color of unstyled shapes.
pub open spec fn color_white(c: Color) -> bool {
    c.r@ == q_int(1) && c.g@ == q_int(1) && c.b@ == q_int(1) && c.a@ == q_int(1)
}

/// The renderable carries the style's fill color, or white when none was
/// given.
pub open spec fn styled_fill(sr: ShapeRenderable, style: ShapeStyle) -> bool {
    &&& (style.fill matches Some(c) ==> sr.mesh.color == Some(c))
    &&& (style.fill is None ==> (sr.mesh.color matches Some(c) && color_white(c)))
}

/// The renderable carries the style's stroke color, or white when none
/// was given.
pub open spec fn styled_stroke(sr: ShapeRenderable, style: ShapeStyle) -> bool {
    &&& (style.stroke_color matches Some(c) ==> sr.mesh.color == Some(c))
    &&& (style.stroke_color is None ==> (sr.mesh.color matches Some(c) && color_white(c)))
}

} // verus!
