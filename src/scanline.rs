//! Scanline fill: the vertices are sorted by row, and the triangle is
//! walked row by row along its edges, the upper part (down to and including
//! the middle vertex's row) from the top and the lower part from the bottom.
//! Inverse depth and inverse-depth-weighted colour are interpolated
//! linearly, along the edges and then across each row, and the colour is
//! recovered per pixel by dividing by the interpolated inverse depth.
use vstd::prelude::*;
use crate::buffer::FrameBuffer;
use crate::color::Rgb;
use crate::interpolator::{lemma_between, value_at, Interpolator};
use crate::screen::{in_front, signed_area, ScreenTriangle, ScreenVertex};
use crate::triangle::{screen_of, Triangle};

verus! {

/// The fixed-point numerator of inverse depths: a vertex at depth `z` has
/// inverse depth `INV_ONE / z`.
pub const INV_ONE: i64 = 0x100_0000_0000;

/// The quantities walked along edges and rows: the column, the inverse
/// depth, and each colour channel multiplied by the inverse depth.
#[derive(Clone, Copy, Debug, PartialEq, Eq, Structural)]
pub struct ScanVertex {
    pub x: i64,
    pub invd: i64,
    pub r: i64,
    pub g: i64,
    pub b: i64,
}

pub open spec fn scan_vertex_of(v: ScreenVertex) -> ScanVertex {
    let invd = INV_ONE as int / v.depth as int;
    ScanVertex {
        x: v.x as i64,
        invd: invd as i64,
        r: (v.col.r * invd) as i64,
        g: (v.col.g * invd) as i64,
        b: (v.col.b * invd) as i64,
    }
}

/// The range that every walked quantity stays in.
pub open spec fn scan_bounded(v: ScanVertex) -> bool {
    &&& i16::MIN <= v.x <= i16::MAX
    &&& 1 <= v.invd <= INV_ONE
    &&& 0 <= v.r <= 255 * INV_ONE
    &&& 0 <= v.g <= 255 * INV_ONE
    &&& 0 <= v.b <= 255 * INV_ONE
}

/// Every quantity taken `i` of `n` steps of the way from `s` to `e`.
pub open spec fn lerp(s: ScanVertex, e: ScanVertex, n: int, i: int) -> ScanVertex {
    ScanVertex {
        x: value_at(s.x as int, e.x as int, n, i) as i64,
        invd: value_at(s.invd as int, e.invd as int, n, i) as i64,
        r: value_at(s.r as int, e.r as int, n, i) as i64,
        g: value_at(s.g as int, e.g as int, n, i) as i64,
        b: value_at(s.b as int, e.b as int, n, i) as i64,
    }
}

proof fn lemma_lerp_bounded(s: ScanVertex, e: ScanVertex, n: int, i: int)
    requires
        scan_bounded(s),
        scan_bounded(e),
        n > 0,
        0 <= i <= n,
    ensures
        scan_bounded(lerp(s, e, n, i)),
{
    lemma_between(s.x as int, e.x as int, n, i);
    lemma_between(s.invd as int, e.invd as int, n, i);
    lemma_between(s.r as int, e.r as int, n, i);
    lemma_between(s.g as int, e.g as int, n, i);
    lemma_between(s.b as int, e.b as int, n, i);
}

/// A step count of at least one: a flat edge is read only at its start.
pub open spec fn steps_of(d: int) -> int {
    if d < 1 {
        1
    } else {
        d
    }
}

/// The triangle's vertices ordered by row with three compare-and-swaps;
/// vertices on one row keep their order.
pub open spec fn sorted(t: ScreenTriangle) -> ScreenTriangle {
    let t1 = if t.a.y > t.b.y { ScreenTriangle { a: t.b, b: t.a, c: t.c } } else { t };
    let t2 = if t1.b.y > t1.c.y { ScreenTriangle { a: t1.a, b: t1.c, c: t1.b } } else { t1 };
    if t2.a.y > t2.b.y { ScreenTriangle { a: t2.b, b: t2.a, c: t2.c } } else { t2 }
}

/// The two edge points of row `y` of the row-sorted triangle `t`: the
/// short and the long edge, walked from the top vertex down to the middle
/// row inclusive, and from the bottom vertex up to just below it.
pub open spec fn row_edges(t: ScreenTriangle, y: int) -> Option<(ScanVertex, ScanVertex)> {
    let (a, b, c) = (scan_vertex_of(t.a), scan_vertex_of(t.b), scan_vertex_of(t.c));
    if t.a.y <= y <= t.b.y {
        Some(
            (
                lerp(a, b, steps_of(t.b.y - t.a.y), y - t.a.y),
                lerp(a, c, steps_of(t.c.y - t.a.y), y - t.a.y),
            ),
        )
    } else if t.b.y < y <= t.c.y {
        Some(
            (
                lerp(c, b, steps_of(t.c.y - t.b.y), t.c.y - y),
                lerp(c, a, steps_of(t.c.y - t.a.y), t.c.y - y),
            ),
        )
    } else {
        None
    }
}

/// The two ends of a row, left one first.
pub open spec fn span_ends(p: ScanVertex, q: ScanVertex) -> (ScanVertex, ScanVertex) {
    if p.x < q.x {
        (p, q)
    } else {
        (q, p)
    }
}

pub open spec fn span_contains(p: ScanVertex, q: ScanVertex, x: int) -> bool {
    span_ends(p, q).0.x <= x < span_ends(p, q).1.x
}

/// A weighted channel divided back by the inverse depth, capped at 255.
pub open spec fn recover(pre: int, invd: int) -> u8 {
    if pre / invd > 255 {
        255
    } else {
        (pre / invd) as u8
    }
}

/// The colour of column `x` of the row between `p` and `q`.
pub open spec fn span_color(p: ScanVertex, q: ScanVertex, x: int) -> Rgb {
    let (s, e) = span_ends(p, q);
    let (n, i) = (e.x - s.x, x - s.x);
    let invd = value_at(s.invd as int, e.invd as int, n, i);
    Rgb {
        r: recover(value_at(s.r as int, e.r as int, n, i), invd),
        g: recover(value_at(s.g as int, e.g as int, n, i), invd),
        b: recover(value_at(s.b as int, e.b as int, n, i), invd),
    }
}

/// The colour that the scanline fill gives pixel `(x, y)` of `t`, or
/// `None` when it leaves the pixel alone.
pub open spec fn scan_pixel(t: ScreenTriangle, x: int, y: int) -> Option<Rgb> {
    if !in_front(t) {
        None
    } else {
        match row_edges(sorted(t), y) {
            Some((p, q)) => if span_contains(p, q, x) {
                Some(span_color(p, q, x))
            } else {
                None
            },
            None => None,
        }
    }
}

proof fn lemma_equal_ratio(x: int, y: int, u: int, v: int)
    requires
        y > 0,
        v > 0,
        x * v == u * y,
    ensures
        x / y == u / v,
{
    vstd::arithmetic::div_mod::lemma_fundamental_div_mod(x, y);
    let (q, r) = (x / y, x % y);
    let r2 = u - q * v;
    assert(r2 * y == r * v) by (nonlinear_arith)
        requires
            x == y * q + r,
            x * v == u * y,
            r2 == u - q * v,
    ;
    assert(0 <= r2 < v) by (nonlinear_arith)
        requires
            r2 * y == r * v,
            0 <= r < y,
            y > 0,
            v > 0,
    ;
    vstd::arithmetic::div_mod::lemma_fundamental_div_mod_converse(u, v, q, r2);
}

proof fn lemma_area_swaps(t: ScreenTriangle)
    ensures
        signed_area(ScreenTriangle { a: t.b, b: t.a, c: t.c }) == -signed_area(t),
        signed_area(ScreenTriangle { a: t.a, b: t.c, c: t.b }) == -signed_area(t),
{
    let (ux, uy, vx, vy) = (t.b.x - t.a.x, t.b.y - t.a.y, t.c.x - t.a.x, t.c.y - t.a.y);
    assert((-ux) * (vy - uy) - (-uy) * (vx - ux) == -(ux * vy - uy * vx)) by (nonlinear_arith);
    assert(vx * uy - vy * ux == -(ux * vy - uy * vx)) by (nonlinear_arith);
}

proof fn lemma_sorted(t: ScreenTriangle)
    ensures
        sorted(t).a.y <= sorted(t).b.y <= sorted(t).c.y,
        signed_area(t) == 0 ==> signed_area(sorted(t)) == 0,
{
    let t1 = if t.a.y > t.b.y { ScreenTriangle { a: t.b, b: t.a, c: t.c } } else { t };
    let t2 = if t1.b.y > t1.c.y { ScreenTriangle { a: t1.a, b: t1.c, c: t1.b } } else { t1 };
    lemma_area_swaps(t);
    lemma_area_swaps(t1);
    lemma_area_swaps(t2);
}

/// The edge points of one row agree where the triangle's vertices lie on
/// one line.
proof fn lemma_degenerate_row(s: ScreenTriangle, y: int)
    requires
        signed_area(s) == 0,
        s.a.y <= s.b.y <= s.c.y,
        in_front(s),
        row_edges(s, y) is Some,
    ensures
        row_edges(s, y).unwrap().0.x == row_edges(s, y).unwrap().1.x,
{
    let (ax, ay, bx, by, cx, cy) = (s.a.x as int, s.a.y as int, s.b.x as int, s.b.y as int, s.c.x as int, s.c.y as int);
    if ay <= y <= by {
        let i = y - ay;
        if by == ay {
            crate::interpolator::lemma_round_trip(ax, bx, 1);
            crate::interpolator::lemma_round_trip(ax, cx, steps_of(cy - ay));
        } else {
            assert(((bx - ax) * i) * (cy - ay) == ((cx - ax) * i) * (by - ay)) by (nonlinear_arith)
                requires
                    (bx - ax) * (cy - ay) - (by - ay) * (cx - ax) == 0,
            ;
            lemma_equal_ratio((bx - ax) * i, by - ay, (cx - ax) * i, cy - ay);
        }
    } else {
        let i = cy - y;
        assert((bx - cx) * (cy - ay) == (ax - cx) * (cy - by)) by (nonlinear_arith)
            requires
                (bx - ax) * (cy - ay) - (by - ay) * (cx - ax) == 0,
        ;
        assert(((bx - cx) * i) * (cy - ay) == ((ax - cx) * i) * (cy - by)) by (nonlinear_arith)
            requires
                (bx - cx) * (cy - ay) == (ax - cx) * (cy - by),
        ;
        lemma_equal_ratio((bx - cx) * i, cy - by, (ax - cx) * i, cy - ay);
    }
}

/// A triangle whose vertices lie on one line gets no pixel from the
/// scanline fill: on every row its two edges meet.
pub proof fn lemma_degenerate_scans_nothing(t: ScreenTriangle, x: int, y: int)
    requires
        signed_area(t) == 0,
    ensures
        scan_pixel(t, x, y) is None,
{
    lemma_sorted(t);
    let s = sorted(t);
    if in_front(t) && row_edges(s, y) is Some {
        lemma_degenerate_row(s, y);
    }
}

/// Vertex `i` (0, 1 or 2) of `t`.
pub open spec fn vertex_at(t: ScreenTriangle, i: int) -> ScreenVertex {
    if i == 0 {
        t.a
    } else if i == 1 {
        t.b
    } else {
        t.c
    }
}

/// `p` lists 0, 1 and 2, each once.
pub open spec fn is_permutation(p: (int, int, int)) -> bool {
    &&& 0 <= p.0 < 3 && 0 <= p.1 < 3 && 0 <= p.2 < 3
    &&& p.0 != p.1 && p.1 != p.2 && p.0 != p.2
}

/// `u` holds the vertices of `t` in the order `p`.
pub open spec fn reordered(t: ScreenTriangle, u: ScreenTriangle, p: (int, int, int)) -> bool {
    u.a == vertex_at(t, p.0) && u.b == vertex_at(t, p.1) && u.c == vertex_at(t, p.2)
}

impl ScreenTriangle {
    /// Orders the vertices by row, top first; vertices on one row keep
    /// their order.
    pub fn vertex_vertical_sort(&mut self)
        ensures
            *final(self) == sorted(*old(self)),
            final(self).a.y <= final(self).b.y <= final(self).c.y,
            exists|p: (int, int, int)|
                #[trigger] reordered(*old(self), *final(self), p) && is_permutation(p) && (final(self).a.y
                    == final(self).b.y ==> p.0 < p.1) && (final(self).b.y == final(self).c.y ==> p.1 < p.2),
    {
        let ghost mut p: (int, int, int) = (0, 1, 2);
        if self.a.y > self.b.y {
            let t = self.a;
            self.a = self.b;
            self.b = t;
            proof {
                p = (p.1, p.0, p.2);
            }
        }
        if self.b.y > self.c.y {
            let t = self.b;
            self.b = self.c;
            self.c = t;
            proof {
                p = (p.0, p.2, p.1);
            }
        }
        if self.a.y > self.b.y {
            let t = self.a;
            self.a = self.b;
            self.b = t;
            proof {
                p = (p.1, p.0, p.2);
            }
        }
        assert(reordered(*old(self), *self, p));
    }
}

impl ScanVertex {
    /// The walked quantities of a screen vertex in front of the camera.
    pub fn build(v: &ScreenVertex) -> (r: ScanVertex)
        requires
            v.depth > 0,
        ensures
            r == scan_vertex_of(*v),
            scan_bounded(r),
    {
        let invd: i64 = INV_ONE / v.depth as i64;
        proof {
            let z = v.depth as int;
            let k = INV_ONE as int;
            vstd::arithmetic::div_mod::lemma_fundamental_div_mod(k, z);
            assert(1 <= invd <= k) by (nonlinear_arith)
                requires
                    1 <= z < 0x1_0000_0000,
                    k == 0x100_0000_0000,
                    invd == k / z,
                    k == z * (k / z) + k % z,
                    0 <= k % z < z,
            ;
            assert(0 <= v.col.r * invd <= 255 * INV_ONE) by (nonlinear_arith)
                requires
                    1 <= invd <= INV_ONE,
                    v.col.r <= 255,
            ;
            assert(0 <= v.col.g * invd <= 255 * INV_ONE) by (nonlinear_arith)
                requires
                    1 <= invd <= INV_ONE,
                    v.col.g <= 255,
            ;
            assert(0 <= v.col.b * invd <= 255 * INV_ONE) by (nonlinear_arith)
                requires
                    1 <= invd <= INV_ONE,
                    v.col.b <= 255,
            ;
        }
        ScanVertex {
            x: v.x as i64,
            invd,
            r: v.col.r as i64 * invd,
            g: v.col.g as i64 * invd,
            b: v.col.b as i64 * invd,
        }
    }
}

/// Cursors for every walked quantity along one edge.
struct Edge {
    x: Interpolator,
    invd: Interpolator,
    r: Interpolator,
    g: Interpolator,
    b: Interpolator,
}

impl Edge {
    spec fn from_v(&self) -> ScanVertex {
        ScanVertex {
            x: self.x.start_value() as i64,
            invd: self.invd.start_value() as i64,
            r: self.r.start_value() as i64,
            g: self.g.start_value() as i64,
            b: self.b.start_value() as i64,
        }
    }

    spec fn to_v(&self) -> ScanVertex {
        ScanVertex {
            x: self.x.end_value() as i64,
            invd: self.invd.end_value() as i64,
            r: self.r.end_value() as i64,
            g: self.g.end_value() as i64,
            b: self.b.end_value() as i64,
        }
    }

    spec fn tracks(&self, s: ScanVertex, e: ScanVertex, n: int, i: int) -> bool {
        &&& n > 0
        &&& self.x.wf() && self.invd.wf() && self.r.wf() && self.g.wf() && self.b.wf()
        &&& self.x.start_value() == s.x && self.x.end_value() == e.x
        &&& self.invd.start_value() == s.invd && self.invd.end_value() == e.invd
        &&& self.r.start_value() == s.r && self.r.end_value() == e.r
        &&& self.g.start_value() == s.g && self.g.end_value() == e.g
        &&& self.b.start_value() == s.b && self.b.end_value() == e.b
        &&& self.x.step_count() == n && self.invd.step_count() == n && self.r.step_count() == n
        &&& self.g.step_count() == n && self.b.step_count() == n
        &&& self.x.index() == i && self.invd.index() == i && self.r.index() == i
        &&& self.g.index() == i && self.b.index() == i
        &&& self.x.value() == value_at(s.x as int, e.x as int, n, i)
        &&& self.invd.value() == value_at(s.invd as int, e.invd as int, n, i)
        &&& self.r.value() == value_at(s.r as int, e.r as int, n, i)
        &&& self.g.value() == value_at(s.g as int, e.g as int, n, i)
        &&& self.b.value() == value_at(s.b as int, e.b as int, n, i)
    }

    fn build(s: ScanVertex, e: ScanVertex, n: i64) -> (r: Edge)
        requires
            n > 0,
        ensures
            r.tracks(s, e, n as int, 0),
    {
        proof {
            crate::interpolator::lemma_round_trip(s.x as int, e.x as int, n as int);
            crate::interpolator::lemma_round_trip(s.invd as int, e.invd as int, n as int);
            crate::interpolator::lemma_round_trip(s.r as int, e.r as int, n as int);
            crate::interpolator::lemma_round_trip(s.g as int, e.g as int, n as int);
            crate::interpolator::lemma_round_trip(s.b as int, e.b as int, n as int);
        }
        Edge {
            x: Interpolator::build(s.x, e.x, n),
            invd: Interpolator::build(s.invd, e.invd, n),
            r: Interpolator::build(s.r, e.r, n),
            g: Interpolator::build(s.g, e.g, n),
            b: Interpolator::build(s.b, e.b, n),
        }
    }

    fn current(&self, Ghost(s): Ghost<ScanVertex>, Ghost(e): Ghost<ScanVertex>, Ghost(n): Ghost<int>, Ghost(i): Ghost<int>) -> (r: ScanVertex)
        requires
            self.tracks(s, e, n, i),
            scan_bounded(s),
            scan_bounded(e),
            0 <= i <= n,
        ensures
            r == lerp(s, e, n, i),
            scan_bounded(r),
            r.x == value_at(s.x as int, e.x as int, n, i),
            r.invd == value_at(s.invd as int, e.invd as int, n, i),
            r.r == value_at(s.r as int, e.r as int, n, i),
            r.g == value_at(s.g as int, e.g as int, n, i),
            r.b == value_at(s.b as int, e.b as int, n, i),
    {
        proof {
            lemma_lerp_bounded(s, e, n, i);
        }
        ScanVertex { x: self.x.curr(), invd: self.invd.curr(), r: self.r.curr(), g: self.g.curr(), b: self.b.curr() }
    }

    fn progress(&mut self, Ghost(s): Ghost<ScanVertex>, Ghost(e): Ghost<ScanVertex>, Ghost(n): Ghost<int>, Ghost(i): Ghost<int>)
        requires
            old(self).tracks(s, e, n, i),
            scan_bounded(s),
            scan_bounded(e),
            0 <= i < n,
        ensures
            final(self).tracks(s, e, n, i + 1),
    {
        proof {
            lemma_between(s.x as int, e.x as int, n, i + 1);
            lemma_between(s.invd as int, e.invd as int, n, i + 1);
            lemma_between(s.r as int, e.r as int, n, i + 1);
            lemma_between(s.g as int, e.g as int, n, i + 1);
            lemma_between(s.b as int, e.b as int, n, i + 1);
        }
        self.x.progress();
        self.invd.progress();
        self.r.progress();
        self.g.progress();
        self.b.progress();
    }
}

fn recover_exec(pre: i64, invd: i64) -> (r: u8)
    requires
        pre >= 0,
        invd >= 1,
    ensures
        r == recover(pre as int, invd as int),
{
    let q: i64 = pre / invd;
    if q > 255 {
        255
    } else {
        q as u8
    }
}

/// Draws row `y` between the edge points `p` and `q`: columns from the
/// left end up to, but not including, the right end.
fn scanline(buffer: &mut FrameBuffer, p: ScanVertex, q: ScanVertex, y: i64)
    requires
        old(buffer).wf(),
        scan_bounded(p),
        scan_bounded(q),
    ensures
        final(buffer).wf(),
        final(buffer).width_spec() == old(buffer).width_spec(),
        final(buffer).height_spec() == old(buffer).height_spec(),
        forall|px: int, py: int|
            0 <= px < old(buffer).width_spec() && 0 <= py < old(buffer).height_spec() ==>
                #[trigger] final(buffer).pixel(px, py) == if py == y && span_contains(p, q, px) {
                    span_color(p, q, px)
                } else {
                    old(buffer).pixel(px, py)
                },
{
    let (start, end) = if p.x < q.x {
        (p, q)
    } else {
        (q, p)
    };
    let width: i64 = buffer.width() as i64;
    let height: i64 = buffer.height() as i64;
    if y < 0 || y >= height || start.x >= end.x {
        return;
    }
    let n: i64 = end.x - start.x;
    let mut span = Edge::build(start, end, n);
    let mut x: i64 = start.x;
    while x < end.x
        invariant
            buffer.wf(),
            buffer.width_spec() == old(buffer).width_spec() == width,
            buffer.height_spec() == old(buffer).height_spec() == height,
            0 <= y < height <= crate::buffer::MAX_DIM,
            width <= crate::buffer::MAX_DIM,
            (start, end) == span_ends(p, q),
            scan_bounded(start),
            scan_bounded(end),
            n == end.x - start.x,
            n > 0,
            start.x <= x <= end.x,
            span.tracks(start, end, n as int, x - start.x),
            forall|px: int, py: int|
                0 <= px < width && 0 <= py < height ==> #[trigger] buffer.pixel(px, py) == if py == y
                    && start.x <= px < x {
                    span_color(p, q, px)
                } else {
                    old(buffer).pixel(px, py)
                },
        decreases end.x - x,
    {
        let ghost i: int = x - start.x;
        let cur = span.current(Ghost(start), Ghost(end), Ghost(n as int), Ghost(i));
        proof {
            assert(value_at(start.x as int, end.x as int, n as int, i) == x) by {
                assert((end.x - start.x) * i == n * i);
                vstd::arithmetic::div_mod::lemma_div_multiples_vanish(i, n as int);
                assert(n * i == i * n) by (nonlinear_arith);
            }
        }
        if 0 <= x && x < width {
            let color = Rgb {
                r: recover_exec(cur.r, cur.invd),
                g: recover_exec(cur.g, cur.invd),
                b: recover_exec(cur.b, cur.invd),
            };
            buffer.set(x as usize, y as usize, color);
        }
        span.progress(Ghost(start), Ghost(end), Ghost(n as int), Ghost(i));
        x = x + 1;
    }
}

/// Draws the screen triangle into `buffer` row by row along its edges;
/// pixels outside the walked spans keep their colour.
pub fn fill(buffer: &mut FrameBuffer, triangle: &ScreenTriangle)
    requires
        old(buffer).wf(),
    ensures
        final(buffer).wf(),
        final(buffer).width_spec() == old(buffer).width_spec(),
        final(buffer).height_spec() == old(buffer).height_spec(),
        forall|x: int, y: int|
            0 <= x < old(buffer).width_spec() && 0 <= y < old(buffer).height_spec() ==>
                #[trigger] final(buffer).pixel(x, y) == match scan_pixel(*triangle, x, y) {
                    Some(c) => c,
                    None => old(buffer).pixel(x, y),
                },
{
    if triangle.a.depth == 0 || triangle.b.depth == 0 || triangle.c.depth == 0 {
        return;
    }
    let mut t = *triangle;
    t.vertex_vertical_sort();
    let ghost st = t;
    let a = ScanVertex::build(&t.a);
    let b = ScanVertex::build(&t.b);
    let c = ScanVertex::build(&t.c);
    let (ay, by, cy) = (t.a.y as i64, t.b.y as i64, t.c.y as i64);
    let ghost w = buffer.width_spec();
    let ghost h = buffer.height_spec();
    let ns: i64 = if by - ay < 1 { 1 } else { by - ay };
    let nl: i64 = if cy - ay < 1 { 1 } else { cy - ay };
    let mut short_side = Edge::build(a, b, ns);
    let mut long_side = Edge::build(a, c, nl);
    let mut y: i64 = ay;
    while y <= by
        invariant
            buffer.wf(),
            buffer.width_spec() == old(buffer).width_spec() == w,
            buffer.height_spec() == old(buffer).height_spec() == h,
            in_front(*triangle),
            st == sorted(*triangle),
            st.a.y <= st.b.y <= st.c.y,
            a == scan_vertex_of(st.a) && b == scan_vertex_of(st.b) && c == scan_vertex_of(st.c),
            scan_bounded(a) && scan_bounded(b) && scan_bounded(c),
            ay == st.a.y && by == st.b.y && cy == st.c.y,
            ns == steps_of(by - ay),
            nl == steps_of(cy - ay),
            ay <= y <= by + 1,
            y <= by ==> short_side.tracks(a, b, ns as int, y - ay),
            y <= by ==> long_side.tracks(a, c, nl as int, y - ay),
            forall|px: int, py: int|
                0 <= px < w && 0 <= py < h ==> #[trigger] buffer.pixel(px, py) == if ay <= py < y {
                    match scan_pixel(*triangle, px, py) {
                        Some(c) => c,
                        None => old(buffer).pixel(px, py),
                    }
                } else {
                    old(buffer).pixel(px, py)
                },
        decreases by + 1 - y,
    {
        let ghost i: int = y - ay;
        let p = short_side.current(Ghost(a), Ghost(b), Ghost(ns as int), Ghost(i));
        let q = long_side.current(Ghost(a), Ghost(c), Ghost(nl as int), Ghost(i));
        proof {
            assert(row_edges(st, y as int) == Some((p, q)));
        }
        scanline(buffer, p, q, y);
        if y < by {
            short_side.progress(Ghost(a), Ghost(b), Ghost(ns as int), Ghost(i));
            long_side.progress(Ghost(a), Ghost(c), Ghost(nl as int), Ghost(i));
        }
        y = y + 1;
    }
    let ns: i64 = if cy - by < 1 { 1 } else { cy - by };
    let mut short_side = Edge::build(c, b, ns);
    let mut long_side = Edge::build(c, a, nl);
    let mut y: i64 = cy;
    while y > by
        invariant
            buffer.wf(),
            buffer.width_spec() == old(buffer).width_spec() == w,
            buffer.height_spec() == old(buffer).height_spec() == h,
            in_front(*triangle),
            st == sorted(*triangle),
            st.a.y <= st.b.y <= st.c.y,
            a == scan_vertex_of(st.a) && b == scan_vertex_of(st.b) && c == scan_vertex_of(st.c),
            scan_bounded(a) && scan_bounded(b) && scan_bounded(c),
            ay == st.a.y && by == st.b.y && cy == st.c.y,
            ns == steps_of(cy - by),
            nl == steps_of(cy - ay),
            by <= y <= cy,
            y > by ==> short_side.tracks(c, b, ns as int, cy - y),
            y > by ==> long_side.tracks(c, a, nl as int, cy - y),
            forall|px: int, py: int|
                0 <= px < w && 0 <= py < h ==> #[trigger] buffer.pixel(px, py) == if ay <= py <= by || y
                    < py <= cy {
                    match scan_pixel(*triangle, px, py) {
                        Some(c) => c,
                        None => old(buffer).pixel(px, py),
                    }
                } else {
                    old(buffer).pixel(px, py)
                },
        decreases y - by,
    {
        let ghost i: int = cy - y;
        let p = short_side.current(Ghost(c), Ghost(b), Ghost(ns as int), Ghost(i));
        let q = long_side.current(Ghost(c), Ghost(a), Ghost(nl as int), Ghost(i));
        proof {
            assert(row_edges(st, y as int) == Some((p, q)));
        }
        scanline(buffer, p, q, y);
        if y > by + 1 {
            short_side.progress(Ghost(c), Ghost(b), Ghost(ns as int), Ghost(i));
            long_side.progress(Ghost(c), Ghost(a), Ghost(nl as int), Ghost(i));
        }
        y = y - 1;
    }
}

/// Projects `triangle` into `buffer`'s viewport and draws it there with
/// [`fill`]; a triangle that cannot be projected leaves the buffer as it is.
pub fn render(buffer: &mut FrameBuffer, triangle: &Triangle)
    requires
        old(buffer).wf(),
        triangle.wf(),
    ensures
        final(buffer).wf(),
        final(buffer).width_spec() == old(buffer).width_spec(),
        final(buffer).height_spec() == old(buffer).height_spec(),
        forall|x: int, y: int|
            0 <= x < old(buffer).width_spec() && 0 <= y < old(buffer).height_spec() ==>
                #[trigger] final(buffer).pixel(x, y) == match screen_of(
                    *triangle,
                    old(buffer).width_spec(),
                    old(buffer).height_spec(),
                ) {
                    Some(s) => match scan_pixel(s, x, y) {
                        Some(c) => c,
                        None => old(buffer).pixel(x, y),
                    },
                    None => old(buffer).pixel(x, y),
                },
{
    match triangle.screen_transform(buffer.width(), buffer.height()) {
        Some(s) => fill(buffer, &s),
        None => {},
    }
}

} // verus!
