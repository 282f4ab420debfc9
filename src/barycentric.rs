//! Bounding-box fill: every pixel of the triangle's bounding box is tested
//! with barycentric weights taken at its centre, and the accepted ones are
//! shaded perspective-correctly.
use vstd::prelude::*;
use crate::buffer::FrameBuffer;
use crate::triangle::{screen_of, Triangle};
use crate::screen::{blend_color, cross, in_front, perspective_color, ScreenTriangle, ScreenVertex};

verus! {

/// A point in half-pixel units: pixel `(x, y)` has its centre at
/// `(2x + 1, 2y + 1)` and its top-left corner at `(2x, 2y)`.
#[derive(Clone, Copy, Debug, PartialEq, Eq, Structural)]
pub struct Vec2 {
    pub x: i64,
    pub y: i64,
}

/// Barycentric weights before normalisation: the weight of each vertex is
/// its entry divided by the sum of the three.
#[derive(Clone, Copy, Debug, PartialEq, Eq, Structural)]
pub struct Weights {
    pub l0: i64,
    pub l1: i64,
    pub l2: i64,
}

/// The half-open pixel rectangle `[mins, maxs)`.
#[derive(Clone, Copy, Debug, PartialEq, Eq, Structural)]
pub struct BoundingBox {
    pub mins: Vec2,
    pub maxs: Vec2,
}

impl BoundingBox {
    pub fn width(&self) -> (r: i64)
        requires
            i64::MIN <= self.maxs.x - self.mins.x <= i64::MAX,
        ensures
            r == self.maxs.x - self.mins.x,
    {
        self.maxs.x - self.mins.x
    }

    pub fn height(&self) -> (r: i64)
        requires
            i64::MIN <= self.maxs.y - self.mins.y <= i64::MAX,
        ensures
            r == self.maxs.y - self.mins.y,
    {
        self.maxs.y - self.mins.y
    }
}

pub open spec fn min3(a: int, b: int, c: int) -> int {
    if a <= b && a <= c {
        a
    } else if b <= c {
        b
    } else {
        c
    }
}

pub open spec fn max3(a: int, b: int, c: int) -> int {
    if a >= b && a >= c {
        a
    } else if b >= c {
        b
    } else {
        c
    }
}

fn min_i16(a: i16, b: i16, c: i16) -> (r: i64)
    ensures
        r == min3(a as int, b as int, c as int),
{
    if a <= b && a <= c {
        a as i64
    } else if b <= c {
        b as i64
    } else {
        c as i64
    }
}

fn max_i16(a: i16, b: i16, c: i16) -> (r: i64)
    ensures
        r == max3(a as int, b as int, c as int),
{
    if a >= b && a >= c {
        a as i64
    } else if b >= c {
        b as i64
    } else {
        c as i64
    }
}

/// The rectangle spanned by the vertices' pixel positions.
pub open spec fn bounds_of(t: ScreenTriangle) -> BoundingBox {
    BoundingBox {
        mins: Vec2 { x: min3(t.a.x as int, t.b.x as int, t.c.x as int) as i64, y: min3(t.a.y as int, t.b.y as int, t.c.y as int) as i64 },
        maxs: Vec2 { x: max3(t.a.x as int, t.b.x as int, t.c.x as int) as i64, y: max3(t.a.y as int, t.b.y as int, t.c.y as int) as i64 },
    }
}

impl ScreenTriangle {
    /// The smallest pixel rectangle whose corners hold the three vertices.
    pub fn bounds(&self) -> (r: BoundingBox)
        ensures
            r == bounds_of(*self),
    {
        BoundingBox {
            mins: Vec2 { x: min_i16(self.a.x, self.b.x, self.c.x), y: min_i16(self.a.y, self.b.y, self.c.y) },
            maxs: Vec2 { x: max_i16(self.a.x, self.b.x, self.c.x), y: max_i16(self.a.y, self.b.y, self.c.y) },
        }
    }
}

/// A vertex's pixel corner in half-pixel units.
pub open spec fn corner(v: ScreenVertex) -> (int, int) {
    (2 * v.x, 2 * v.y)
}

/// The unnormalised barycentric weights of `p` in the triangle `a b c`: each
/// vertex is paired with the cross product taken along the edge opposite it.
pub open spec fn weights_of(a: (int, int), b: (int, int), c: (int, int), p: (int, int)) -> (int, int, int) {
    let apb = cross(b.0 - a.0, b.1 - a.1, p.0 - a.0, p.1 - a.1);
    let bpc = cross(c.0 - b.0, c.1 - b.1, p.0 - b.0, p.1 - b.1);
    let cpa = cross(a.0 - c.0, a.1 - c.1, p.0 - c.0, p.1 - c.1);
    (bpc, cpa, apb)
}

/// The weights of the centre of pixel `(x, y)` in the screen triangle `t`.
pub open spec fn pixel_weights(t: ScreenTriangle, x: int, y: int) -> (int, int, int) {
    weights_of(corner(t.a), corner(t.b), corner(t.c), (2 * x + 1, 2 * y + 1))
}

/// Each normalised weight `l_i / (l_0 + l_1 + l_2)` is defined and
/// non-negative: points on an edge are inside.
pub open spec fn inside(l: (int, int, int)) -> bool {
    ||| (l.0 >= 0 && l.1 >= 0 && l.2 >= 0 && l.0 + l.1 + l.2 > 0)
    ||| (l.0 <= 0 && l.1 <= 0 && l.2 <= 0 && l.0 + l.1 + l.2 < 0)
}

/// The three weights of any point sum to the doubled signed area of the
/// triangle, whatever the point: the normalised weights sum to exactly one
/// whenever that area is not zero, and a point with all three weights of
/// the area's sign lies strictly inside with every normalised weight
/// positive.
pub proof fn lemma_weights_sum(a: (int, int), b: (int, int), c: (int, int), p: (int, int))
    ensures
        weights_of(a, b, c, p).0 + weights_of(a, b, c, p).1 + weights_of(a, b, c, p).2 == cross(
            b.0 - a.0,
            b.1 - a.1,
            c.0 - a.0,
            c.1 - a.1,
        ),
{
    let (ux, uy, vx, vy, wx, wy) = (b.0 - a.0, b.1 - a.1, c.0 - a.0, c.1 - a.1, p.0 - a.0, p.1 - a.1);
    assert((vx - ux) * (wy - uy) == vx * wy - vx * uy - ux * wy + ux * uy) by (nonlinear_arith);
    assert((vy - uy) * (wx - ux) == vy * wx - vy * ux - uy * wx + uy * ux) by (nonlinear_arith);
    assert((-vx) * (wy - vy) == -(vx * wy) + vx * vy) by (nonlinear_arith);
    assert((-vy) * (wx - vx) == -(vy * wx) + vy * vx) by (nonlinear_arith);
    assert(vx * uy == uy * vx && ux * uy == uy * ux && vx * vy == vy * vx && vy * ux == ux * vy) by (nonlinear_arith);
    assert(c.0 - b.0 == vx - ux && c.1 - b.1 == vy - uy && p.0 - b.0 == wx - ux && p.1 - b.1 == wy - uy);
    assert(a.0 - c.0 == -vx && a.1 - c.1 == -vy && p.0 - c.0 == wx - vx && p.1 - c.1 == wy - vy);
}

/// At the vertices themselves the weights are `(1, 0, 0)`, `(0, 1, 0)` and
/// `(0, 0, 1)` once divided by their sum.
pub proof fn lemma_weights_at_vertices(a: (int, int), b: (int, int), c: (int, int))
    ensures
        ({
            let area = cross(b.0 - a.0, b.1 - a.1, c.0 - a.0, c.1 - a.1);
            &&& weights_of(a, b, c, a) == (area, 0int, 0int)
            &&& weights_of(a, b, c, b) == (0int, area, 0int)
            &&& weights_of(a, b, c, c) == (0int, 0int, area)
        }),
{
    lemma_weights_sum(a, b, c, a);
    lemma_weights_sum(a, b, c, b);
    lemma_weights_sum(a, b, c, c);
    assert(cross(b.0 - a.0, b.1 - a.1, b.0 - a.0, b.1 - a.1) == 0) by (nonlinear_arith);
    assert(cross(a.0 - c.0, a.1 - c.1, a.0 - c.0, a.1 - c.1) == 0) by (nonlinear_arith);
    assert(cross(c.0 - b.0, c.1 - b.1, c.0 - b.0, c.1 - b.1) == 0) by (nonlinear_arith);
    assert(cross(c.0 - b.0, c.1 - b.1, b.0 - b.0, b.1 - b.1) == 0) by (nonlinear_arith);
    assert(cross(a.0 - c.0, a.1 - c.1, c.0 - c.0, c.1 - c.1) == 0) by (nonlinear_arith);
    assert(cross(b.0 - a.0, b.1 - a.1, a.0 - a.0, a.1 - a.1) == 0) by (nonlinear_arith);
}

/// A point strictly inside a non-degenerate triangle, written as the
/// combination `(al a + be b + ga c) / (al + be + ga)` with positive
/// coefficients, has weights `al`, `be`, `ga` times the area over their sum:
/// every normalised weight is positive, and the point is inside.
pub proof fn lemma_interior_weights_positive(
    a: (int, int),
    b: (int, int),
    c: (int, int),
    p: (int, int),
    al: int,
    be: int,
    ga: int,
)
    requires
        cross(b.0 - a.0, b.1 - a.1, c.0 - a.0, c.1 - a.1) != 0,
        al > 0,
        be > 0,
        ga > 0,
        (al + be + ga) * p.0 == al * a.0 + be * b.0 + ga * c.0,
        (al + be + ga) * p.1 == al * a.1 + be * b.1 + ga * c.1,
    ensures
        ({
            let area = cross(b.0 - a.0, b.1 - a.1, c.0 - a.0, c.1 - a.1);
            let l = weights_of(a, b, c, p);
            &&& (al + be + ga) * l.0 == al * area
            &&& (al + be + ga) * l.1 == be * area
            &&& (al + be + ga) * l.2 == ga * area
            &&& l.0 * area > 0 && l.1 * area > 0 && l.2 * area > 0
            &&& inside(l)
        }),
{
    let area = cross(b.0 - a.0, b.1 - a.1, c.0 - a.0, c.1 - a.1);
    let l = weights_of(a, b, c, p);
    let d = al + be + ga;
    // Work relative to `a`: u = b - a, v = c - a, w = p - a, so d w = be u + ga v.
    let (ux, uy, vx, vy, wx, wy) = (b.0 - a.0, b.1 - a.1, c.0 - a.0, c.1 - a.1, p.0 - a.0, p.1 - a.1);
    assert(d * wx == be * ux + ga * vx) by (nonlinear_arith)
        requires
            d == al + be + ga,
            d * p.0 == al * a.0 + be * b.0 + ga * c.0,
            wx == p.0 - a.0,
            ux == b.0 - a.0,
            vx == c.0 - a.0,
    ;
    assert(d * wy == be * uy + ga * vy) by (nonlinear_arith)
        requires
            d == al + be + ga,
            d * p.1 == al * a.1 + be * b.1 + ga * c.1,
            wy == p.1 - a.1,
            uy == b.1 - a.1,
            vy == c.1 - a.1,
    ;
    // apb = u x w
    assert(d * (ux * wy - uy * wx) == ux * (d * wy) - uy * (d * wx)) by (nonlinear_arith);
    assert(ux * (be * uy + ga * vy) == be * (ux * uy) + ga * (ux * vy)) by (nonlinear_arith);
    assert(uy * (be * ux + ga * vx) == be * (ux * uy) + ga * (uy * vx)) by (nonlinear_arith);
    assert(ga * (ux * vy) - ga * (uy * vx) == ga * (ux * vy - uy * vx)) by (nonlinear_arith);
    // cpa = (-v) x (w - v) = v_y w_x - v_x w_y
    assert((-vx) * (wy - vy) - (-vy) * (wx - vx) == vy * wx - vx * wy) by (nonlinear_arith);
    assert(d * (vy * wx - vx * wy) == vy * (d * wx) - vx * (d * wy)) by (nonlinear_arith);
    assert(vy * (be * ux + ga * vx) == be * (ux * vy) + ga * (vx * vy)) by (nonlinear_arith);
    assert(vx * (be * uy + ga * vy) == be * (uy * vx) + ga * (vx * vy)) by (nonlinear_arith);
    assert(be * (ux * vy) - be * (uy * vx) == be * (ux * vy - uy * vx)) by (nonlinear_arith);
    assert(d * l.2 == ga * area);
    assert(d * l.1 == be * area);
    lemma_weights_sum(a, b, c, p);
    assert(d * l.0 == al * area) by (nonlinear_arith)
        requires
            l.0 + l.1 + l.2 == area,
            d * l.1 == be * area,
            d * l.2 == ga * area,
            d == al + be + ga,
    ;
    assert(l.0 * area > 0 && l.1 * area > 0 && l.2 * area > 0) by (nonlinear_arith)
        requires
            d > 0,
            area != 0,
            al > 0,
            be > 0,
            ga > 0,
            d * l.0 == al * area,
            d * l.1 == be * area,
            d * l.2 == ga * area,
    ;
    assert(inside(l)) by (nonlinear_arith)
        requires
            l.0 * area > 0,
            l.1 * area > 0,
            l.2 * area > 0,
            l.0 + l.1 + l.2 == area,
    ;
}

/// A triangle whose vertices lie on one line covers no pixel.
pub proof fn lemma_degenerate_covers_nothing(t: ScreenTriangle, x: int, y: int)
    requires
        crate::screen::signed_area(t) == 0,
    ensures
        !covered(t, x, y),
{
    let (a, b, c) = (corner(t.a), corner(t.b), corner(t.c));
    lemma_weights_sum(a, b, c, (2 * x + 1, 2 * y + 1));
    let (ux, uy, vx, vy) = (t.b.x - t.a.x, t.b.y - t.a.y, t.c.x - t.a.x, t.c.y - t.a.y);
    assert((2 * ux) * (2 * vy) == 4 * (ux * vy)) by (nonlinear_arith);
    assert((2 * uy) * (2 * vx) == 4 * (uy * vx)) by (nonlinear_arith);
    assert(b.0 - a.0 == 2 * ux && b.1 - a.1 == 2 * uy && c.0 - a.0 == 2 * vx && c.1 - a.1 == 2 * vy);
}

/// Pixel `(x, y)` is drawn by the bounding-box fill of `t`.
pub open spec fn covered(t: ScreenTriangle, x: int, y: int) -> bool {
    let bb = bounds_of(t);
    &&& in_front(t)
    &&& bb.mins.x <= x < bb.maxs.x
    &&& bb.mins.y <= y < bb.maxs.y
    &&& inside(pixel_weights(t, x, y))
}

/// The colour that the bounding-box fill gives pixel `(x, y)` of `t`.
pub open spec fn shade(t: ScreenTriangle, x: int, y: int) -> crate::color::Rgb {
    perspective_color(t, pixel_weights(t, x, y))
}

/// Precomputed data for barycentric weights in one screen triangle.
pub struct BarycentricSystem {
    a: Vec2,
    b: Vec2,
    c: Vec2,
    ba: Vec2,
    cb: Vec2,
    ac: Vec2,
}

/// The bound on half-pixel coordinates accepted by `calculate_point`.
pub const POINT_BOUND: i64 = 0x4_0000;

proof fn lemma_cross_bound(ux: int, uy: int, vx: int, vy: int)
    requires
        -0x8_0000 <= ux <= 0x8_0000,
        -0x8_0000 <= uy <= 0x8_0000,
        -0x8_0000 <= vx <= 0x8_0000,
        -0x8_0000 <= vy <= 0x8_0000,
    ensures
        -0x40_0000_0000 <= ux * vy <= 0x40_0000_0000,
        -0x40_0000_0000 <= uy * vx <= 0x40_0000_0000,
        -0x80_0000_0000 <= cross(ux, uy, vx, vy) <= 0x80_0000_0000,
{
    assert(-0x40_0000_0000 <= ux * vy <= 0x40_0000_0000) by (nonlinear_arith)
        requires
            -0x8_0000 <= ux <= 0x8_0000,
            -0x8_0000 <= vy <= 0x8_0000,
    ;
    assert(-0x40_0000_0000 <= uy * vx <= 0x40_0000_0000) by (nonlinear_arith)
        requires
            -0x8_0000 <= uy <= 0x8_0000,
            -0x8_0000 <= vx <= 0x8_0000,
    ;
}

fn cross_exec(u: Vec2, v: Vec2) -> (r: i64)
    requires
        -0x8_0000 <= u.x <= 0x8_0000,
        -0x8_0000 <= u.y <= 0x8_0000,
        -0x8_0000 <= v.x <= 0x8_0000,
        -0x8_0000 <= v.y <= 0x8_0000,
    ensures
        r == cross(u.x as int, u.y as int, v.x as int, v.y as int),
        -0x80_0000_0000 <= r <= 0x80_0000_0000,
{
    proof {
        lemma_cross_bound(u.x as int, u.y as int, v.x as int, v.y as int);
    }
    u.x * v.y - u.y * v.x
}

impl BarycentricSystem {
    /// The three vertex corners in half-pixel units.
    pub closed spec fn corners(&self) -> ((int, int), (int, int), (int, int)) {
        ((self.a.x as int, self.a.y as int), (self.b.x as int, self.b.y as int), (self.c.x as int, self.c.y as int))
    }

    pub closed spec fn wf(&self) -> bool {
        &&& -0x1_0000 <= self.a.x <= 0x1_0000 && -0x1_0000 <= self.a.y <= 0x1_0000
        &&& -0x1_0000 <= self.b.x <= 0x1_0000 && -0x1_0000 <= self.b.y <= 0x1_0000
        &&& -0x1_0000 <= self.c.x <= 0x1_0000 && -0x1_0000 <= self.c.y <= 0x1_0000
        &&& self.ba == Vec2 { x: (self.b.x - self.a.x) as i64, y: (self.b.y - self.a.y) as i64 }
        &&& self.cb == Vec2 { x: (self.c.x - self.b.x) as i64, y: (self.c.y - self.b.y) as i64 }
        &&& self.ac == Vec2 { x: (self.a.x - self.c.x) as i64, y: (self.a.y - self.c.y) as i64 }
    }

    /// The system of the triangle's vertices, each taken at its pixel corner.
    pub fn from(triangle: &ScreenTriangle) -> (r: Self)
        ensures
            r.wf(),
            r.corners() == (corner(triangle.a), corner(triangle.b), corner(triangle.c)),
    {
        let a = Vec2 { x: 2 * triangle.a.x as i64, y: 2 * triangle.a.y as i64 };
        let b = Vec2 { x: 2 * triangle.b.x as i64, y: 2 * triangle.b.y as i64 };
        let c = Vec2 { x: 2 * triangle.c.x as i64, y: 2 * triangle.c.y as i64 };
        BarycentricSystem {
            a,
            b,
            c,
            ba: Vec2 { x: b.x - a.x, y: b.y - a.y },
            cb: Vec2 { x: c.x - b.x, y: c.y - b.y },
            ac: Vec2 { x: a.x - c.x, y: a.y - c.y },
        }
    }

    /// The unnormalised weights of `point`, given in half-pixel units.
    pub fn calculate_point(&self, point: Vec2) -> (r: Weights)
        requires
            self.wf(),
            -POINT_BOUND <= point.x <= POINT_BOUND,
            -POINT_BOUND <= point.y <= POINT_BOUND,
        ensures
            (r.l0 as int, r.l1 as int, r.l2 as int) == weights_of(
                self.corners().0,
                self.corners().1,
                self.corners().2,
                (point.x as int, point.y as int),
            ),
            -0x80_0000_0000 <= r.l0 <= 0x80_0000_0000,
            -0x80_0000_0000 <= r.l1 <= 0x80_0000_0000,
            -0x80_0000_0000 <= r.l2 <= 0x80_0000_0000,
    {
        let ap = Vec2 { x: point.x - self.a.x, y: point.y - self.a.y };
        let bp = Vec2 { x: point.x - self.b.x, y: point.y - self.b.y };
        let cp = Vec2 { x: point.x - self.c.x, y: point.y - self.c.y };
        let apb = cross_exec(self.ba, ap);
        let bpc = cross_exec(self.cb, bp);
        let cpa = cross_exec(self.ac, cp);
        Weights { l0: bpc, l1: cpa, l2: apb }
    }

    /// Whether the weights place their point inside the triangle, edges
    /// included.
    pub fn within_triangle(&self, lambdas: Weights) -> (r: bool)
        requires
            -0x80_0000_0000 <= lambdas.l0 <= 0x80_0000_0000,
            -0x80_0000_0000 <= lambdas.l1 <= 0x80_0000_0000,
            -0x80_0000_0000 <= lambdas.l2 <= 0x80_0000_0000,
        ensures
            r == inside((lambdas.l0 as int, lambdas.l1 as int, lambdas.l2 as int)),
    {
        let sum = lambdas.l0 + lambdas.l1 + lambdas.l2;
        (lambdas.l0 >= 0 && lambdas.l1 >= 0 && lambdas.l2 >= 0 && sum > 0) || (lambdas.l0 <= 0
            && lambdas.l1 <= 0 && lambdas.l2 <= 0 && sum < 0)
    }
}

/// Draws the screen triangle into `buffer`: every pixel of its bounding box
/// whose centre lies inside it gets the perspective-correct blend of the
/// vertex colours; all other pixels keep their colour.
pub fn fill(buffer: &mut FrameBuffer, triangle: &ScreenTriangle)
    requires
        old(buffer).wf(),
    ensures
        final(buffer).wf(),
        final(buffer).width_spec() == old(buffer).width_spec(),
        final(buffer).height_spec() == old(buffer).height_spec(),
        forall|x: int, y: int|
            0 <= x < old(buffer).width_spec() && 0 <= y < old(buffer).height_spec() ==>
                #[trigger] final(buffer).pixel(x, y) == if covered(*triangle, x, y) {
                    shade(*triangle, x, y)
                } else {
                    old(buffer).pixel(x, y)
                },
{
    if triangle.a.depth == 0 || triangle.b.depth == 0 || triangle.c.depth == 0 {
        return;
    }
    let bounds = triangle.bounds();
    let system = BarycentricSystem::from(triangle);
    let width: i64 = buffer.width() as i64;
    let height: i64 = buffer.height() as i64;
    let x0: i64 = if bounds.mins.x < 0 { 0 } else { bounds.mins.x };
    let x1: i64 = if bounds.maxs.x > width { width } else { bounds.maxs.x };
    let y0: i64 = if bounds.mins.y < 0 { 0 } else { bounds.mins.y };
    let y1: i64 = if bounds.maxs.y > height { height } else { bounds.maxs.y };
    let ghost t = *triangle;
    let mut y: i64 = y0;
    while y < y1
        invariant
            buffer.wf(),
            buffer.width_spec() == old(buffer).width_spec() == width,
            buffer.height_spec() == old(buffer).height_spec() == height,
            system.wf(),
            system.corners() == (corner(t.a), corner(t.b), corner(t.c)),
            bounds == bounds_of(t),
            in_front(t),
            t == *triangle,
            x0 == if bounds.mins.x < 0 { 0 } else { bounds.mins.x },
            x1 == if bounds.maxs.x > width { width } else { bounds.maxs.x },
            y0 == if bounds.mins.y < 0 { 0 } else { bounds.mins.y },
            y1 == if bounds.maxs.y > height { height } else { bounds.maxs.y },
            y0 <= y,
            forall|px: int, py: int|
                0 <= px < width && 0 <= py < height ==> #[trigger] buffer.pixel(px, py) == if covered(t, px, py)
                    && py < y {
                    shade(t, px, py)
                } else {
                    old(buffer).pixel(px, py)
                },
        decreases y1 - y,
    {
        let mut x: i64 = x0;
        while x < x1
            invariant
                buffer.wf(),
                buffer.width_spec() == old(buffer).width_spec() == width,
                buffer.height_spec() == old(buffer).height_spec() == height,
                system.wf(),
                system.corners() == (corner(t.a), corner(t.b), corner(t.c)),
                bounds == bounds_of(t),
                in_front(t),
                t == *triangle,
                x0 == if bounds.mins.x < 0 { 0 } else { bounds.mins.x },
                x1 == if bounds.maxs.x > width { width } else { bounds.maxs.x },
                y0 == if bounds.mins.y < 0 { 0 } else { bounds.mins.y },
                y1 == if bounds.maxs.y > height { height } else { bounds.maxs.y },
                y0 <= y < y1,
                x0 <= x,
                forall|px: int, py: int|
                    0 <= px < width && 0 <= py < height ==> #[trigger] buffer.pixel(px, py) == if covered(t, px, py)
                        && (py < y || (py == y && px < x)) {
                        shade(t, px, py)
                    } else {
                        old(buffer).pixel(px, py)
                    },
            decreases x1 - x,
        {
            let lambdas = system.calculate_point(Vec2 { x: 2 * x + 1, y: 2 * y + 1 });
            if system.within_triangle(lambdas) {
                let color = blend_color(triangle, (lambdas.l0, lambdas.l1, lambdas.l2));
                buffer.set(x as usize, y as usize, color);
            }
            x = x + 1;
        }
        y = y + 1;
    }
}

/// Projects `triangle` into `buffer`'s viewport and draws it there with
/// [`fill`]; a triangle that cannot be projected leaves the buffer as it is.
pub fn render(buffer: &mut FrameBuffer, triangle: &Triangle)
    requires
        old(buffer).wf(),
        triangle.wf(),
    ensures
        final(buffer).wf(),
        final(buffer).width_spec() == old(buffer).width_spec(),
        final(buffer).height_spec() == old(buffer).height_spec(),
        forall|x: int, y: int|
            0 <= x < old(buffer).width_spec() && 0 <= y < old(buffer).height_spec() ==>
                #[trigger] final(buffer).pixel(x, y) == match screen_of(
                    *triangle,
                    old(buffer).width_spec(),
                    old(buffer).height_spec(),
                ) {
                    Some(s) => if covered(s, x, y) {
                        shade(s, x, y)
                    } else {
                        old(buffer).pixel(x, y)
                    },
                    None => old(buffer).pixel(x, y),
                },
{
    match triangle.screen_transform(buffer.width(), buffer.height()) {
        Some(s) => fill(buffer, &s),
        None => {},
    }
}

} // verus!
