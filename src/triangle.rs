//! World-space triangles and the transforms that place them in the world
//! and project them onto the screen, in fixed-point arithmetic.
use vstd::prelude::*;
use crate::buffer::MAX_DIM;
use crate::color::Rgb;
use crate::screen::{ScreenTriangle, ScreenVertex};

verus! {

/// The fixed-point one of sines and cosines.
pub const ONE: i64 = 16384;

/// The fixed-point one of a triangle's scale.
pub const SCALE_ONE: i64 = 256;

/// The largest magnitude of a vertex coordinate in object space.
pub const VERTEX_BOUND: i32 = 0x10_0000;

/// The largest magnitude of a coordinate of a triangle's world position.
pub const POSITION_BOUND: i32 = 0x100_0000;

/// The largest magnitude of a triangle's scale.
pub const SCALE_BOUND: i32 = 0x1000;

/// A point or direction with integer coordinates.
#[derive(Clone, Copy, Debug, PartialEq, Eq, Structural)]
pub struct Vec3 {
    pub x: i32,
    pub y: i32,
    pub z: i32,
}

/// A vertex: its position and its colour.
#[derive(Clone, Copy, Debug, PartialEq, Eq, Structural)]
pub struct Vertex {
    pub pos: Vec3,
    pub col: Rgb,
}

/// A rotation angle, held as its sine and cosine scaled by `ONE`.
#[derive(Clone, Copy, Debug, PartialEq, Eq, Structural)]
pub struct Turn {
    pub sin: i32,
    pub cos: i32,
}

/// Rotations about the x, y and z axes.
#[derive(Clone, Copy, Debug, PartialEq, Eq, Structural)]
pub struct Rotation {
    pub x: Turn,
    pub y: Turn,
    pub z: Turn,
}

/// A triangle in object space with its placement in the world: uniform
/// scale (in units of `SCALE_ONE`), then rotation, then translation by `pos`.
#[derive(Clone, Copy, Debug, PartialEq, Eq, Structural)]
pub struct Triangle {
    pub a: Vertex,
    pub b: Vertex,
    pub c: Vertex,
    pub pos: Vec3,
    pub rot: Rotation,
    pub scale: i32,
}

/// `t` stands for an angle: its sine and cosine lie in `[-ONE, ONE]` and
/// `sin^2 + cos^2` is `ONE^2` up to the rounding of each to an integer.
pub open spec fn turn_wf(t: Turn) -> bool {
    &&& -ONE <= t.sin <= ONE && -ONE <= t.cos <= ONE
    &&& -2 * ONE <= t.sin * t.sin + t.cos * t.cos - ONE * ONE <= 2 * ONE
}

pub open spec fn vertex_wf(v: Vertex) -> bool {
    &&& -VERTEX_BOUND <= v.pos.x <= VERTEX_BOUND
    &&& -VERTEX_BOUND <= v.pos.y <= VERTEX_BOUND
    &&& -VERTEX_BOUND <= v.pos.z <= VERTEX_BOUND
}

impl Triangle {
    /// Coordinates, scale and sines and cosines are within the bounds that
    /// keep every transform inside 32-bit coordinates.
    pub open spec fn wf(&self) -> bool {
        &&& vertex_wf(self.a) && vertex_wf(self.b) && vertex_wf(self.c)
        &&& -POSITION_BOUND <= self.pos.x <= POSITION_BOUND
        &&& -POSITION_BOUND <= self.pos.y <= POSITION_BOUND
        &&& -POSITION_BOUND <= self.pos.z <= POSITION_BOUND
        &&& -SCALE_BOUND <= self.scale <= SCALE_BOUND
        &&& turn_wf(self.rot.x) && turn_wf(self.rot.y) && turn_wf(self.rot.z)
    }
}

/// Rotates the pair `(u, v)` by `t`: `(cos u - sin v, sin u + cos v)`,
/// each rounded down.
pub open spec fn turn_pair(t: Turn, u: int, v: int) -> (int, int) {
    ((t.cos * u - t.sin * v) / ONE as int, (t.sin * u + t.cos * v) / ONE as int)
}

pub open spec fn rotate_x(t: Turn, p: (int, int, int)) -> (int, int, int) {
    let (y, z) = turn_pair(t, p.1, p.2);
    (p.0, y, z)
}

pub open spec fn rotate_y(t: Turn, p: (int, int, int)) -> (int, int, int) {
    let (z, x) = turn_pair(t, p.2, p.0);
    (x, p.1, z)
}

pub open spec fn rotate_z(t: Turn, p: (int, int, int)) -> (int, int, int) {
    let (x, y) = turn_pair(t, p.0, p.1);
    (x, y, p.2)
}

/// Where the object-space point `p` of `t` lies in the world: scaled, then
/// rotated by `Rx * Ry * Rz` (so about z first), then translated.
pub open spec fn world_point(t: Triangle, p: Vec3) -> (int, int, int) {
    let s = (p.x * t.scale / SCALE_ONE as int, p.y * t.scale / SCALE_ONE as int, p.z * t.scale / SCALE_ONE as int);
    let r = rotate_x(t.rot.x, rotate_y(t.rot.y, rotate_z(t.rot.z, s)));
    (r.0 + t.pos.x, r.1 + t.pos.y, r.2 + t.pos.z)
}

pub open spec fn to_vec3(p: (int, int, int)) -> Vec3 {
    Vec3 { x: p.0 as i32, y: p.1 as i32, z: p.2 as i32 }
}

/// The triangle with its vertices moved to the world.
pub open spec fn world_of(t: Triangle) -> Triangle {
    Triangle {
        a: Vertex { pos: to_vec3(world_point(t, t.a.pos)), col: t.a.col },
        b: Vertex { pos: to_vec3(world_point(t, t.b.pos)), col: t.b.col },
        c: Vertex { pos: to_vec3(world_point(t, t.c.pos)), col: t.c.col },
        ..t
    }
}

/// The pixel that the camera-space point `p` (with `p.2 > 0`) projects to
/// in a `w` x `h` viewport: `x * h / (2z) + w / 2` and `h / 2 - y * h / (2z)`,
/// rounded down, which is the perspective divide with aspect correction
/// followed by the viewport mapping with rows growing downwards.
pub open spec fn project(p: (int, int, int), w: int, h: int) -> (int, int) {
    ((p.0 * h + p.2 * w) / (2 * p.2), (p.2 * h - p.1 * h) / (2 * p.2))
}

pub open spec fn fits_i16(v: int) -> bool {
    i16::MIN <= v <= i16::MAX
}

/// The world point `p` projects to a pixel with 16-bit coordinates and
/// lies in front of the camera.
pub open spec fn projectable(p: (int, int, int), w: int, h: int) -> bool {
    p.2 > 0 && fits_i16(project(p, w, h).0) && fits_i16(project(p, w, h).1)
}

pub open spec fn screen_vertex_of(p: (int, int, int), col: Rgb, w: int, h: int) -> ScreenVertex {
    ScreenVertex { x: project(p, w, h).0 as i16, y: project(p, w, h).1 as i16, depth: p.2 as u32, col }
}

/// The screen-space triangle of `t` in a `w` x `h` viewport, or `None` when
/// a vertex lies at or behind the camera or projects outside 16-bit pixel
/// coordinates.
pub open spec fn screen_of(t: Triangle, w: int, h: int) -> Option<ScreenTriangle> {
    let (pa, pb, pc) = (world_point(t, t.a.pos), world_point(t, t.b.pos), world_point(t, t.c.pos));
    if projectable(pa, w, h) && projectable(pb, w, h) && projectable(pc, w, h) {
        Some(
            ScreenTriangle {
                a: screen_vertex_of(pa, t.a.col, w, h),
                b: screen_vertex_of(pb, t.b.col, w, h),
                c: screen_vertex_of(pc, t.c.col, w, h),
            },
        )
    } else {
        None
    }
}

/// `a / b` rounded down.
pub fn floor_div(a: i64, b: i64) -> (r: i64)
    requires
        b > 0,
        a > i64::MIN,
    ensures
        r == a as int / b as int,
{
    if a >= 0 {
        proof {
            vstd::arithmetic::div_mod::lemma_fundamental_div_mod(a as int, b as int);
            vstd::arithmetic::div_mod::lemma_fundamental_div_mod_converse(a as int, b as int, (a / b) as int, (a % b) as int);
        }
        a / b
    } else {
        let n: i64 = -a;
        let q: i64 = n / b;
        let m: i64 = n % b;
        proof {
            vstd::arithmetic::div_mod::lemma_fundamental_div_mod(n as int, b as int);
            assert(b * q == q * b) by (nonlinear_arith);
            assert((-q - 1) * b == -(q * b) - b) by (nonlinear_arith);
            assert((-q) * b == -(q * b)) by (nonlinear_arith);
        }
        if m == 0 {
            proof {
                vstd::arithmetic::div_mod::lemma_fundamental_div_mod_converse(a as int, b as int, -q, 0);
            }
            -q
        } else {
            proof {
                vstd::arithmetic::div_mod::lemma_fundamental_div_mod_converse(a as int, b as int, -q - 1, b - m);
            }
            -q - 1
        }
    }
}

proof fn lemma_div_bound(x: int, d: int, b: int)
    requires
        d > 0,
        b >= 0,
        -b * d <= x <= b * d,
    ensures
        -b <= x / d <= b,
{
    vstd::arithmetic::div_mod::lemma_div_is_ordered(x, b * d, d);
    vstd::arithmetic::div_mod::lemma_div_is_ordered(-b * d, x, d);
    vstd::arithmetic::div_mod::lemma_div_multiples_vanish(b, d);
    vstd::arithmetic::div_mod::lemma_div_multiples_vanish(-b, d);
    assert(-b * d == (-b) * d) by (nonlinear_arith);
    assert(b * d == d * b) by (nonlinear_arith);
    assert((-b) * d == d * (-b)) by (nonlinear_arith);
}

proof fn lemma_turn_bound(t: Turn, u: int, v: int, b: int)
    requires
        turn_wf(t),
        0 <= b,
        -b <= u <= b,
        -b <= v <= b,
    ensures
        -b * ONE <= t.cos * u <= b * ONE,
        -b * ONE <= t.sin * v <= b * ONE,
        -b * ONE <= t.sin * u <= b * ONE,
        -b * ONE <= t.cos * v <= b * ONE,
        -2 * b * ONE <= t.cos * u - t.sin * v <= 2 * b * ONE,
        -2 * b * ONE <= t.sin * u + t.cos * v <= 2 * b * ONE,
        -2 * b <= turn_pair(t, u, v).0 <= 2 * b,
        -2 * b <= turn_pair(t, u, v).1 <= 2 * b,
{
    let (c, s) = (t.cos as int, t.sin as int);
    assert(-b * ONE <= c * u <= b * ONE) by (nonlinear_arith)
        requires
            -ONE <= c <= ONE,
            -b <= u <= b,
    ;
    assert(-b * ONE <= s * v <= b * ONE) by (nonlinear_arith)
        requires
            -ONE <= s <= ONE,
            -b <= v <= b,
    ;
    assert(-b * ONE <= s * u <= b * ONE) by (nonlinear_arith)
        requires
            -ONE <= s <= ONE,
            -b <= u <= b,
    ;
    assert(-b * ONE <= c * v <= b * ONE) by (nonlinear_arith)
        requires
            -ONE <= c <= ONE,
            -b <= v <= b,
    ;
    assert(2 * b * ONE == (2 * b) * ONE) by (nonlinear_arith);
    lemma_div_bound(c * u - s * v, ONE as int, 2 * b);
    lemma_div_bound(s * u + c * v, ONE as int, 2 * b);
}

/// Rotates the pair `(u, v)` by `t`.
fn turn_apply(t: Turn, u: i64, v: i64, Ghost(b): Ghost<int>) -> (r: (i64, i64))
    requires
        turn_wf(t),
        0 <= b <= 0x1000_0000,
        -b <= u <= b,
        -b <= v <= b,
    ensures
        (r.0 as int, r.1 as int) == turn_pair(t, u as int, v as int),
        -2 * b <= r.0 <= 2 * b,
        -2 * b <= r.1 <= 2 * b,
{
    proof {
        lemma_turn_bound(t, u as int, v as int, b);
        assert(b * ONE <= 0x1000_0000 * ONE) by (nonlinear_arith)
            requires
                0 <= b <= 0x1000_0000,
        ;
    }
    let c: i64 = t.cos as i64;
    let s: i64 = t.sin as i64;
    (floor_div(c * u - s * v, ONE), floor_div(s * u + c * v, ONE))
}

fn scale_coord(p: i32, scale: i32) -> (r: i64)
    requires
        -VERTEX_BOUND <= p <= VERTEX_BOUND,
        -SCALE_BOUND <= scale <= SCALE_BOUND,
    ensures
        r == p * scale / SCALE_ONE as int,
        -0x100_0000 <= r <= 0x100_0000,
{
    proof {
        assert(-0x100_0000 * SCALE_ONE <= p * scale <= 0x100_0000 * SCALE_ONE) by (nonlinear_arith)
            requires
                -VERTEX_BOUND <= p <= VERTEX_BOUND,
                -SCALE_BOUND <= scale <= SCALE_BOUND,
        ;
        lemma_div_bound(p * scale, SCALE_ONE as int, 0x100_0000);
    }
    floor_div(p as i64 * scale as i64, SCALE_ONE)
}

/// The bound on world coordinates of a well-formed triangle's vertices.
pub const WORLD_BOUND: i64 = 0x1000_0000;

impl Triangle {
    /// Where the object-space point `p` lies in the world.
    pub fn world_position(&self, p: Vec3) -> (r: (i64, i64, i64))
        requires
            self.wf(),
            vertex_wf(Vertex { pos: p, col: Rgb { r: 0, g: 0, b: 0 } }),
        ensures
            (r.0 as int, r.1 as int, r.2 as int) == world_point(*self, p),
            -WORLD_BOUND <= r.0 <= WORLD_BOUND,
            -WORLD_BOUND <= r.1 <= WORLD_BOUND,
            -WORLD_BOUND <= r.2 <= WORLD_BOUND,
    {
        let sx = scale_coord(p.x, self.scale);
        let sy = scale_coord(p.y, self.scale);
        let sz = scale_coord(p.z, self.scale);
        let (x1, y1) = turn_apply(self.rot.z, sx, sy, Ghost(0x100_0000));
        let z1 = sz;
        let (z2, x2) = turn_apply(self.rot.y, z1, x1, Ghost(0x200_0000));
        let y2 = y1;
        let (y3, z3) = turn_apply(self.rot.x, y2, z2, Ghost(0x400_0000));
        let x3 = x2;
        (x3 + self.pos.x as i64, y3 + self.pos.y as i64, z3 + self.pos.z as i64)
    }

    /// The triangle with each vertex scaled, rotated and translated into
    /// the world; colours and placement are kept.
    pub fn world_transform(&self) -> (r: Triangle)
        requires
            self.wf(),
        ensures
            r == world_of(*self),
    {
        let (ax, ay, az) = self.world_position(self.a.pos);
        let (bx, by, bz) = self.world_position(self.b.pos);
        let (cx, cy, cz) = self.world_position(self.c.pos);
        Triangle {
            a: Vertex { pos: Vec3 { x: ax as i32, y: ay as i32, z: az as i32 }, col: self.a.col },
            b: Vertex { pos: Vec3 { x: bx as i32, y: by as i32, z: bz as i32 }, col: self.b.col },
            c: Vertex { pos: Vec3 { x: cx as i32, y: cy as i32, z: cz as i32 }, col: self.c.col },
            ..*self
        }
    }

    /// The triangle projected into a `width` x `height` viewport, or `None`
    /// when a vertex lies at or behind the camera or lands outside 16-bit
    /// pixel coordinates.
    pub fn screen_transform(&self, width: usize, height: usize) -> (r: Option<ScreenTriangle>)
        requires
            self.wf(),
            width <= MAX_DIM,
            height <= MAX_DIM,
        ensures
            r == screen_of(*self, width as int, height as int),
    {
        let a = project_vertex(self.world_position(self.a.pos), self.a.col, width as i64, height as i64);
        let b = project_vertex(self.world_position(self.b.pos), self.b.col, width as i64, height as i64);
        let c = project_vertex(self.world_position(self.c.pos), self.c.col, width as i64, height as i64);
        match (a, b, c) {
            (Some(a), Some(b), Some(c)) => Some(ScreenTriangle { a, b, c }),
            _ => None,
        }
    }
}

fn project_vertex(p: (i64, i64, i64), col: Rgb, w: i64, h: i64) -> (r: Option<ScreenVertex>)
    requires
        -WORLD_BOUND <= p.0 <= WORLD_BOUND,
        -WORLD_BOUND <= p.1 <= WORLD_BOUND,
        -WORLD_BOUND <= p.2 <= WORLD_BOUND,
        0 <= w <= MAX_DIM,
        0 <= h <= MAX_DIM,
    ensures
        r == if projectable((p.0 as int, p.1 as int, p.2 as int), w as int, h as int) {
            Some(screen_vertex_of((p.0 as int, p.1 as int, p.2 as int), col, w as int, h as int))
        } else {
            None::<ScreenVertex>
        },
{
    if p.2 <= 0 {
        return None;
    }
    proof {
        assert(-WORLD_BOUND * MAX_DIM <= p.0 * h <= WORLD_BOUND * MAX_DIM) by (nonlinear_arith)
            requires
                -WORLD_BOUND <= p.0 <= WORLD_BOUND,
                0 <= h <= MAX_DIM,
        ;
        assert(-WORLD_BOUND * MAX_DIM <= p.1 * h <= WORLD_BOUND * MAX_DIM) by (nonlinear_arith)
            requires
                -WORLD_BOUND <= p.1 <= WORLD_BOUND,
                0 <= h <= MAX_DIM,
        ;
        assert(0 <= p.2 * w <= WORLD_BOUND * MAX_DIM) by (nonlinear_arith)
            requires
                0 < p.2 <= WORLD_BOUND,
                0 <= w <= MAX_DIM,
        ;
        assert(0 <= p.2 * h <= WORLD_BOUND * MAX_DIM) by (nonlinear_arith)
            requires
                0 < p.2 <= WORLD_BOUND,
                0 <= h <= MAX_DIM,
        ;
    }
    let x = floor_div(p.0 * h + p.2 * w, 2 * p.2);
    let y = floor_div(p.2 * h - p.1 * h, 2 * p.2);
    if x < i16::MIN as i64 || x > i16::MAX as i64 || y < i16::MIN as i64 || y > i16::MAX as i64 {
        return None;
    }
    Some(ScreenVertex { x: x as i16, y: y as i16, depth: p.2 as u32, col })
}

} // verus!
