//! Ray-cast fill: a ray from the eye through every pixel is intersected with
//! the world-space triangle, and hit pixels get the affine blend of the
//! vertex colours.
use vstd::prelude::*;
use crate::buffer::{FrameBuffer, MAX_DIM};
use crate::color::Rgb;
use crate::screen::lemma_quotient_in_range;
use crate::triangle::{world_of, Triangle, Vec3};

verus! {

/// A ray from `origin` along `direc`; the direction need not be normalised.
#[derive(Clone, Copy, Debug, PartialEq, Eq, Structural)]
pub struct Ray {
    pub origin: Vec3,
    pub direc: Vec3,
}

/// Barycentric weights of a hit, all non-negative with a positive sum; the
/// weight of each vertex is its entry divided by the sum.
#[derive(Clone, Copy, Debug, PartialEq, Eq, Structural)]
pub struct HitWeights {
    pub l0: i128,
    pub l1: i128,
    pub l2: i128,
}

pub open spec fn as_triple(v: Vec3) -> (int, int, int) {
    (v.x as int, v.y as int, v.z as int)
}

pub open spec fn sub3(u: (int, int, int), v: (int, int, int)) -> (int, int, int) {
    (u.0 - v.0, u.1 - v.1, u.2 - v.2)
}

/// Right-handed cross product.
pub open spec fn cross3(u: (int, int, int), v: (int, int, int)) -> (int, int, int) {
    (u.1 * v.2 - u.2 * v.1, u.2 * v.0 - u.0 * v.2, u.0 * v.1 - u.1 * v.0)
}

pub open spec fn dot3(u: (int, int, int), v: (int, int, int)) -> int {
    u.0 * v.0 + u.1 * v.1 + u.2 * v.2
}

/// The two-edge ray/triangle test. With `e1 = b - a`, `e2 = c - a`,
/// `p = d x e2` and `det = e1 . p`, a ray parallel to the triangle
/// (`det == 0`) misses; otherwise `u = (o - a) . p / det` and
/// `v = d . ((o - a) x e1) / det`, and the ray hits when `u` and `v` lie in
/// `[0, 1]` with `u + v <= 1` and the hit lies strictly in front of the
/// origin, at ray parameter `e2 . ((o - a) x e1) / det > 0`. The weights
/// `(1 - u - v, u, v)` are returned scaled by `|det|`.
pub open spec fn hit(
    o: (int, int, int),
    d: (int, int, int),
    a: (int, int, int),
    b: (int, int, int),
    c: (int, int, int),
) -> Option<(int, int, int)> {
    let e1 = sub3(b, a);
    let e2 = sub3(c, a);
    let p = cross3(d, e2);
    let det = dot3(e1, p);
    let t = sub3(o, a);
    let q = cross3(t, e1);
    let u = dot3(t, p);
    let v = dot3(d, q);
    let dist = dot3(e2, q);
    let (det, u, v, dist) = if det < 0 { (-det, -u, -v, -dist) } else { (det, u, v, dist) };
    if det != 0 && 0 <= u <= det && 0 <= v <= det && u + v <= det && dist > 0 {
        Some((det - u - v, u, v))
    } else {
        None
    }
}

/// The blend of non-negative weights `w` over their sum, rounded down.
pub open spec fn affine_channel(w: (int, int, int), c: (int, int, int)) -> int {
    (w.0 * c.0 + w.1 * c.1 + w.2 * c.2) / (w.0 + w.1 + w.2)
}

pub open spec fn affine_color(t: Triangle, w: (int, int, int)) -> Rgb {
    Rgb {
        r: affine_channel(w, (t.a.col.r as int, t.b.col.r as int, t.c.col.r as int)) as u8,
        g: affine_channel(w, (t.a.col.g as int, t.b.col.g as int, t.c.col.g as int)) as u8,
        b: affine_channel(w, (t.a.col.b as int, t.b.col.b as int, t.c.col.b as int)) as u8,
    }
}

/// The direction of the eye ray through the centre of pixel `(x, y)` of a
/// `w` x `h` viewport: `(ndc_x * w / h, ndc_y, 1)` scaled by `h`.
pub open spec fn pixel_direction(w: int, h: int, x: int, y: int) -> (int, int, int) {
    (2 * x + 1 - w, h - 2 * y - 1, h)
}

/// The colour that the ray-cast fill of the world-space triangle `t` gives
/// pixel `(x, y)`, or `None` when its ray misses.
pub open spec fn ray_color(t: Triangle, w: int, h: int, x: int, y: int) -> Option<Rgb> {
    match hit(
        (0, 0, 0),
        pixel_direction(w, h, x, y),
        as_triple(t.a.pos),
        as_triple(t.b.pos),
        as_triple(t.c.pos),
    ) {
        Some(l) => Some(affine_color(t, l)),
        None => None,
    }
}

/// A ray never hits a triangle whose vertices lie on one line: the
/// determinant of the test is then zero for every ray.
pub proof fn lemma_degenerate_never_hit(
    o: (int, int, int),
    d: (int, int, int),
    a: (int, int, int),
    b: (int, int, int),
    c: (int, int, int),
)
    requires
        cross3(sub3(b, a), sub3(c, a)) == (0int, 0int, 0int),
    ensures
        hit(o, d, a, b, c) is None,
{
    let (x, y) = (sub3(b, a), sub3(c, a));
    assert(x.0 * (d.1 * y.2 - d.2 * y.1) == d.1 * (x.0 * y.2) - d.2 * (x.0 * y.1)) by (nonlinear_arith);
    assert(x.1 * (d.2 * y.0 - d.0 * y.2) == d.2 * (x.1 * y.0) - d.0 * (x.1 * y.2)) by (nonlinear_arith);
    assert(x.2 * (d.0 * y.1 - d.1 * y.0) == d.0 * (x.2 * y.1) - d.1 * (x.2 * y.0)) by (nonlinear_arith);
}

proof fn lemma_mul_bound(x: int, y: int, bx: int, by: int)
    requires
        -bx <= x <= bx,
        -by <= y <= by,
    ensures
        -(bx * by) <= x * y <= bx * by,
{
    assert(-(bx * by) <= x * y <= bx * by) by (nonlinear_arith)
        requires
            -bx <= x <= bx,
            -by <= y <= by,
    ;
}

pub open spec fn bounded(u: (int, int, int), b: int) -> bool {
    -b <= u.0 <= b && -b <= u.1 <= b && -b <= u.2 <= b
}

/// The bound on every magnitude in the intersection test.
pub open spec fn limit() -> int {
    0x1_0000_0000_0000_0000_0000_0000_0000
}

fn sub3_exec(u: (i128, i128, i128), v: (i128, i128, i128), Ghost(b): Ghost<int>) -> (r: (i128, i128, i128))
    requires
        0 <= b <= limit(),
        bounded((u.0 as int, u.1 as int, u.2 as int), b),
        bounded((v.0 as int, v.1 as int, v.2 as int), b),
    ensures
        (r.0 as int, r.1 as int, r.2 as int) == sub3((u.0 as int, u.1 as int, u.2 as int), (v.0 as int, v.1 as int, v.2 as int)),
        bounded((r.0 as int, r.1 as int, r.2 as int), 2 * b),
{
    (u.0 - v.0, u.1 - v.1, u.2 - v.2)
}

fn cross3_exec(
    u: (i128, i128, i128),
    v: (i128, i128, i128),
    Ghost(bu): Ghost<int>,
    Ghost(bv): Ghost<int>,
) -> (r: (i128, i128, i128))
    requires
        0 <= bu,
        0 <= bv,
        bu * bv <= limit(),
        bounded((u.0 as int, u.1 as int, u.2 as int), bu),
        bounded((v.0 as int, v.1 as int, v.2 as int), bv),
    ensures
        (r.0 as int, r.1 as int, r.2 as int) == cross3((u.0 as int, u.1 as int, u.2 as int), (v.0 as int, v.1 as int, v.2 as int)),
        bounded((r.0 as int, r.1 as int, r.2 as int), 2 * (bu * bv)),
{
    proof {
        lemma_mul_bound(u.0 as int, v.1 as int, bu, bv);
        lemma_mul_bound(u.0 as int, v.2 as int, bu, bv);
        lemma_mul_bound(u.1 as int, v.0 as int, bu, bv);
        lemma_mul_bound(u.1 as int, v.2 as int, bu, bv);
        lemma_mul_bound(u.2 as int, v.0 as int, bu, bv);
        lemma_mul_bound(u.2 as int, v.1 as int, bu, bv);
    }
    (u.1 * v.2 - u.2 * v.1, u.2 * v.0 - u.0 * v.2, u.0 * v.1 - u.1 * v.0)
}

fn dot3_exec(u: (i128, i128, i128), v: (i128, i128, i128), Ghost(bu): Ghost<int>, Ghost(bv): Ghost<int>) -> (r: i128)
    requires
        0 <= bu,
        0 <= bv,
        bu * bv <= limit(),
        bounded((u.0 as int, u.1 as int, u.2 as int), bu),
        bounded((v.0 as int, v.1 as int, v.2 as int), bv),
    ensures
        r == dot3((u.0 as int, u.1 as int, u.2 as int), (v.0 as int, v.1 as int, v.2 as int)),
        -3 * (bu * bv) <= r <= 3 * (bu * bv),
{
    proof {
        lemma_mul_bound(u.0 as int, v.0 as int, bu, bv);
        lemma_mul_bound(u.1 as int, v.1 as int, bu, bv);
        lemma_mul_bound(u.2 as int, v.2 as int, bu, bv);
        let k = bu * bv;
        let (p0, p1, p2) = ((u.0 as int) * (v.0 as int), (u.1 as int) * (v.1 as int), (u.2 as int) * (v.2 as int));
        assert(-k <= p0 <= k);
        assert(-k <= p1 <= k);
        assert(-k <= p2 <= k);
        assert(p0 + p1 + p2 <= 3 * k) by (nonlinear_arith)
            requires
                p0 <= k,
                p1 <= k,
                p2 <= k,
        ;
        assert(-3 * k <= p0 + p1 + p2) by (nonlinear_arith)
            requires
                -k <= p0,
                -k <= p1,
                -k <= p2,
        ;
    }
    u.0 * v.0 + u.1 * v.1 + u.2 * v.2
}

fn widen(v: Vec3) -> (r: (i128, i128, i128))
    ensures
        (r.0 as int, r.1 as int, r.2 as int) == as_triple(v),
        bounded((r.0 as int, r.1 as int, r.2 as int), 0x8000_0000),
{
    (v.x as i128, v.y as i128, v.z as i128)
}

impl Ray {
    /// Where the ray meets `triangle`: the barycentric weights of the hit,
    /// or `None` when it misses or runs parallel to the triangle.
    pub fn intersection(&self, triangle: &Triangle) -> (r: Option<HitWeights>)
        ensures
            match r {
                Some(w) => hit(
                    as_triple(self.origin),
                    as_triple(self.direc),
                    as_triple(triangle.a.pos),
                    as_triple(triangle.b.pos),
                    as_triple(triangle.c.pos),
                ) == Some((w.l0 as int, w.l1 as int, w.l2 as int)),
                None => hit(
                    as_triple(self.origin),
                    as_triple(self.direc),
                    as_triple(triangle.a.pos),
                    as_triple(triangle.b.pos),
                    as_triple(triangle.c.pos),
                ) is None,
            },
            r matches Some(w) ==> 0 <= w.l0 <= limit() && 0 <= w.l1 <= limit() && 0 <= w.l2 <= limit()
                && w.l0 + w.l1 + w.l2 > 0,
    {
        let ghost b32: int = 0x8000_0000;
        let ghost b33: int = 0x1_0000_0000;
        let a = widen(triangle.a.pos);
        let b = widen(triangle.b.pos);
        let c = widen(triangle.c.pos);
        let o = widen(self.origin);
        let d = widen(self.direc);
        let e1 = sub3_exec(b, a, Ghost(b32));
        let e2 = sub3_exec(c, a, Ghost(b32));
        let pvec = cross3_exec(d, e2, Ghost(b32), Ghost(b33));
        let ghost bp: int = 2 * (b32 * b33);
        let det = dot3_exec(e1, pvec, Ghost(b33), Ghost(bp));
        let tvec = sub3_exec(o, a, Ghost(b32));
        let qvec = cross3_exec(tvec, e1, Ghost(b33), Ghost(b33));
        let ghost bq: int = 2 * (b33 * b33);
        let u = dot3_exec(tvec, pvec, Ghost(b33), Ghost(bp));
        let v = dot3_exec(d, qvec, Ghost(b32), Ghost(bq));
        let dist = dot3_exec(e2, qvec, Ghost(b33), Ghost(bq));
        let (det, u, v, dist) = if det < 0 {
            (-det, -u, -v, -dist)
        } else {
            (det, u, v, dist)
        };
        if det != 0 && 0 <= u && u <= det && 0 <= v && v <= det && u + v <= det && dist > 0 {
            Some(HitWeights { l0: det - u - v, l1: u, l2: v })
        } else {
            None
        }
    }
}

fn affine_channel_exec(w: HitWeights, c: (u8, u8, u8)) -> (r: u8)
    requires
        0 <= w.l0 <= limit(),
        0 <= w.l1 <= limit(),
        0 <= w.l2 <= limit(),
        w.l0 + w.l1 + w.l2 > 0,
    ensures
        r == affine_channel((w.l0 as int, w.l1 as int, w.l2 as int), (c.0 as int, c.1 as int, c.2 as int)),
{
    proof {
        assert(0 <= w.l0 * c.0 <= 255 * w.l0) by (nonlinear_arith)
            requires
                0 <= w.l0,
                0 <= c.0 <= 255,
        ;
        assert(0 <= w.l1 * c.1 <= 255 * w.l1) by (nonlinear_arith)
            requires
                0 <= w.l1,
                0 <= c.1 <= 255,
        ;
        assert(0 <= w.l2 * c.2 <= 255 * w.l2) by (nonlinear_arith)
            requires
                0 <= w.l2,
                0 <= c.2 <= 255,
        ;
    }
    let num: i128 = w.l0 * c.0 as i128 + w.l1 * c.1 as i128 + w.l2 * c.2 as i128;
    let den: i128 = w.l0 + w.l1 + w.l2;
    proof {
        lemma_quotient_in_range(num as int, den as int);
    }
    (num / den) as u8
}

/// Casts the eye ray of every pixel of `buffer` at the world-space image of
/// `triangle`; a hit pixel gets the affine blend of the vertex colours,
/// every other pixel keeps its colour.
pub fn render(buffer: &mut FrameBuffer, triangle: &Triangle)
    requires
        old(buffer).wf(),
        triangle.wf(),
    ensures
        final(buffer).wf(),
        final(buffer).width_spec() == old(buffer).width_spec(),
        final(buffer).height_spec() == old(buffer).height_spec(),
        forall|x: int, y: int|
            0 <= x < old(buffer).width_spec() && 0 <= y < old(buffer).height_spec() ==>
                #[trigger] final(buffer).pixel(x, y) == match ray_color(
                    world_of(*triangle),
                    old(buffer).width_spec(),
                    old(buffer).height_spec(),
                    x,
                    y,
                ) {
                    Some(c) => c,
                    None => old(buffer).pixel(x, y),
                },
{
    let world = triangle.world_transform();
    let width: usize = buffer.width();
    let height: usize = buffer.height();
    let ghost (w, h) = (width as int, height as int);
    let mut y: usize = 0;
    while y < height
        invariant
            buffer.wf(),
            buffer.width_spec() == old(buffer).width_spec() == w,
            buffer.height_spec() == old(buffer).height_spec() == h,
            width == w,
            height == h,
            w <= MAX_DIM,
            h <= MAX_DIM,
            world == world_of(*triangle),
            y <= h,
            forall|px: int, py: int|
                0 <= px < w && 0 <= py < h ==> #[trigger] buffer.pixel(px, py) == if py < y {
                    match ray_color(world, w, h, px, py) {
                        Some(c) => c,
                        None => old(buffer).pixel(px, py),
                    }
                } else {
                    old(buffer).pixel(px, py)
                },
        decreases h - y,
    {
        let mut x: usize = 0;
        while x < width
            invariant
                buffer.wf(),
                buffer.width_spec() == old(buffer).width_spec() == w,
                buffer.height_spec() == old(buffer).height_spec() == h,
                width == w,
                height == h,
                w <= MAX_DIM,
                h <= MAX_DIM,
                world == world_of(*triangle),
                y < h,
                x <= w,
                forall|px: int, py: int|
                    0 <= px < w && 0 <= py < h ==> #[trigger] buffer.pixel(px, py) == if py < y || (py
                        == y && px < x) {
                        match ray_color(world, w, h, px, py) {
                            Some(c) => c,
                            None => old(buffer).pixel(px, py),
                        }
                    } else {
                        old(buffer).pixel(px, py)
                    },
            decreases w - x,
        {
            let ray = Ray {
                origin: Vec3 { x: 0, y: 0, z: 0 },
                direc: Vec3 {
                    x: (2 * x as i32 + 1 - width as i32),
                    y: (height as i32 - 2 * y as i32 - 1),
                    z: height as i32,
                },
            };
            match ray.intersection(&world) {
                Some(weights) => {
                    let color = Rgb {
                        r: affine_channel_exec(weights, (world.a.col.r, world.b.col.r, world.c.col.r)),
                        g: affine_channel_exec(weights, (world.a.col.g, world.b.col.g, world.c.col.g)),
                        b: affine_channel_exec(weights, (world.a.col.b, world.b.col.b, world.c.col.b)),
                    };
                    buffer.set(x, y, color);
                },
                None => {},
            }
            x = x + 1;
        }
        y = y + 1;
    }
}

} // verus!
