//! Screen-space triangles: pixel positions, depth and colour per vertex.
use vstd::prelude::*;
use crate::color::Rgb;

verus! {

/// A vertex after projection: its pixel column `x` and row `y` (rows grow
/// downwards), its view-space depth and its colour.
#[derive(Clone, Copy, Debug, PartialEq, Eq, Structural)]
pub struct ScreenVertex {
    pub x: i16,
    pub y: i16,
    pub depth: u32,
    pub col: Rgb,
}

/// A triangle in screen space.
#[derive(Clone, Copy, Debug, PartialEq, Eq, Structural)]
pub struct ScreenTriangle {
    pub a: ScreenVertex,
    pub b: ScreenVertex,
    pub c: ScreenVertex,
}

/// Signed 2D cross product, the doubled signed area spanned by `u` and `v`.
pub open spec fn cross(ux: int, uy: int, vx: int, vy: int) -> int {
    ux * vy - uy * vx
}

/// Every vertex lies in front of the camera.
pub open spec fn in_front(t: ScreenTriangle) -> bool {
    t.a.depth > 0 && t.b.depth > 0 && t.c.depth > 0
}

/// The doubled signed area of the triangle in pixel units; zero exactly
/// when its three vertices lie on one line.
pub open spec fn signed_area(t: ScreenTriangle) -> int {
    cross(
        t.b.x - t.a.x,
        t.b.y - t.a.y,
        t.c.x - t.a.x,
        t.c.y - t.a.y,
    )
}

/// One colour channel blended with perspective-correct weights: with
/// weights `w`, depths `z` and channel values `c`, the blend
/// `(sum w_i c_i / z_i) / (sum w_i / z_i)`, written over the common
/// denominator `z_0 z_1 z_2` and rounded down.
pub open spec fn perspective_channel(
    w: (int, int, int),
    z: (int, int, int),
    c: (int, int, int),
) -> int {
    let (k0, k1, k2) = (w.0 * (z.1 * z.2), w.1 * (z.0 * z.2), w.2 * (z.0 * z.1));
    (k0 * c.0 + k1 * c.1 + k2 * c.2) / (k0 + k1 + k2)
}

/// The colour at a point whose barycentric weights are `w` (all of one
/// sign, not all zero), blended perspective-correctly between the vertex
/// colours.
pub open spec fn perspective_color(t: ScreenTriangle, w: (int, int, int)) -> Rgb {
    let n = if w.0 + w.1 + w.2 < 0 { (-w.0, -w.1, -w.2) } else { w };
    let z = (t.a.depth as int, t.b.depth as int, t.c.depth as int);
    Rgb {
        r: perspective_channel(n, z, (t.a.col.r as int, t.b.col.r as int, t.c.col.r as int)) as u8,
        g: perspective_channel(n, z, (t.a.col.g as int, t.b.col.g as int, t.c.col.g as int)) as u8,
        b: perspective_channel(n, z, (t.a.col.b as int, t.b.col.b as int, t.c.col.b as int)) as u8,
    }
}

/// The blend of plain weights `w` over their sum, rounded down.
pub open spec fn linear_channel(w: (int, int, int), c: (int, int, int)) -> int {
    (w.0 * c.0 + w.1 * c.1 + w.2 * c.2) / (w.0 + w.1 + w.2)
}

proof fn lemma_scaled_quotient(m: int, x: int, y: int)
    requires
        m > 0,
        y > 0,
    ensures
        (m * x) / (m * y) == x / y,
{
    vstd::arithmetic::div_mod::lemma_fundamental_div_mod(x, y);
    let (q, r) = (x / y, x % y);
    assert(m * x == q * (m * y) + m * r) by (nonlinear_arith)
        requires
            x == y * q + r,
    ;
    assert(0 <= m * r < m * y) by (nonlinear_arith)
        requires
            m > 0,
            0 <= r < y,
    ;
    vstd::arithmetic::div_mod::lemma_fundamental_div_mod_converse(m * x, m * y, q, m * r);
}

/// Perspective correction changes nothing when the three depths are equal:
/// the blend is then the plain screen-space blend of the weights.
pub proof fn lemma_equal_depths(w: (int, int, int), z: int, c: (int, int, int))
    requires
        z > 0,
        w.0 >= 0 && w.1 >= 0 && w.2 >= 0,
        w.0 + w.1 + w.2 > 0,
    ensures
        perspective_channel(w, (z, z, z), c) == linear_channel(w, c),
{
    let m = z * z;
    assert(m > 0) by (nonlinear_arith)
        requires
            z > 0,
            m == z * z,
    ;
    assert((w.0 * m) * c.0 == m * (w.0 * c.0)) by (nonlinear_arith);
    assert((w.1 * m) * c.1 == m * (w.1 * c.1)) by (nonlinear_arith);
    assert((w.2 * m) * c.2 == m * (w.2 * c.2)) by (nonlinear_arith);
    assert(m * (w.0 * c.0) + m * (w.1 * c.1) + m * (w.2 * c.2) == m * (w.0 * c.0 + w.1 * c.1 + w.2 * c.2))
        by (nonlinear_arith);
    assert(w.0 * m + w.1 * m + w.2 * m == m * (w.0 + w.1 + w.2)) by (nonlinear_arith);
    lemma_scaled_quotient(m, w.0 * c.0 + w.1 * c.1 + w.2 * c.2, w.0 + w.1 + w.2);
}

proof fn lemma_term(w: int, z: int, c: int)
    requires
        0 <= w <= 0x100_0000_0000,
        0 < z <= 0x1_0000_0000_0000_0000,
        0 <= c <= 255,
    ensures
        0 <= w * z <= 0x100_0000_0000 * 0x1_0000_0000_0000_0000,
        0 <= (w * z) * c <= 255 * (w * z),
        w > 0 ==> w * z > 0,
{
    assert(0 <= w * z <= 0x100_0000_0000 * 0x1_0000_0000_0000_0000) by (nonlinear_arith)
        requires
            0 <= w <= 0x100_0000_0000,
            0 < z <= 0x1_0000_0000_0000_0000,
    ;
    assert(0 <= (w * z) * c <= 255 * (w * z)) by (nonlinear_arith)
        requires
            0 <= w * z,
            0 <= c <= 255,
    ;
    assert(w > 0 ==> w * z > 0) by (nonlinear_arith)
        requires
            0 < z,
    ;
}

pub(crate) proof fn lemma_quotient_in_range(n: int, d: int)
    requires
        d > 0,
        0 <= n <= 255 * d,
    ensures
        0 <= n / d <= 255,
{
    vstd::arithmetic::div_mod::lemma_fundamental_div_mod(n, d);
    assert(0 <= n / d <= 255) by (nonlinear_arith)
        requires
            d > 0,
            0 <= n <= 255 * d,
            n == d * (n / d) + n % d,
            0 <= n % d < d,
    ;
}

/// Blends one channel perspective-correctly from non-negative weights.
pub fn blend_channel(w: (i64, i64, i64), z: (u32, u32, u32), c: (u8, u8, u8)) -> (r: u8)
    requires
        0 <= w.0 <= 0x100_0000_0000,
        0 <= w.1 <= 0x100_0000_0000,
        0 <= w.2 <= 0x100_0000_0000,
        w.0 + w.1 + w.2 > 0,
        z.0 > 0 && z.1 > 0 && z.2 > 0,
    ensures
        r == perspective_channel(
            (w.0 as int, w.1 as int, w.2 as int),
            (z.0 as int, z.1 as int, z.2 as int),
            (c.0 as int, c.1 as int, c.2 as int),
        ),
{
    let z0: i128 = z.0 as i128;
    let z1: i128 = z.1 as i128;
    let z2: i128 = z.2 as i128;
    proof {
        assert(0 < z1 * z2 <= 0x1_0000_0000_0000_0000) by (nonlinear_arith)
            requires
                0 < z1 <= 0xffff_ffff,
                0 < z2 <= 0xffff_ffff,
        ;
        assert(0 < z0 * z2 <= 0x1_0000_0000_0000_0000) by (nonlinear_arith)
            requires
                0 < z0 <= 0xffff_ffff,
                0 < z2 <= 0xffff_ffff,
        ;
        assert(0 < z0 * z1 <= 0x1_0000_0000_0000_0000) by (nonlinear_arith)
            requires
                0 < z0 <= 0xffff_ffff,
                0 < z1 <= 0xffff_ffff,
        ;
        lemma_term(w.0 as int, z1 * z2, c.0 as int);
        lemma_term(w.1 as int, z0 * z2, c.1 as int);
        lemma_term(w.2 as int, z0 * z1, c.2 as int);
    }
    let k0: i128 = w.0 as i128 * (z1 * z2);
    let k1: i128 = w.1 as i128 * (z0 * z2);
    let k2: i128 = w.2 as i128 * (z0 * z1);
    let num: i128 = k0 * c.0 as i128 + k1 * c.1 as i128 + k2 * c.2 as i128;
    let den: i128 = k0 + k1 + k2;
    proof {
        lemma_quotient_in_range(num as int, den as int);
    }
    (num / den) as u8
}

/// The perspective-correct colour at a point with barycentric weights `w`.
pub fn blend_color(t: &ScreenTriangle, w: (i64, i64, i64)) -> (r: Rgb)
    requires
        in_front(*t),
        (w.0 >= 0 && w.1 >= 0 && w.2 >= 0) || (w.0 <= 0 && w.1 <= 0 && w.2 <= 0),
        w.0 + w.1 + w.2 != 0,
        -0x100_0000_0000 <= w.0 <= 0x100_0000_0000,
        -0x100_0000_0000 <= w.1 <= 0x100_0000_0000,
        -0x100_0000_0000 <= w.2 <= 0x100_0000_0000,
    ensures
        r == perspective_color(*t, (w.0 as int, w.1 as int, w.2 as int)),
{
    let n = if w.0 + w.1 + w.2 < 0 {
        (-w.0, -w.1, -w.2)
    } else {
        w
    };
    let z = (t.a.depth, t.b.depth, t.c.depth);
    Rgb {
        r: blend_channel(n, z, (t.a.col.r, t.b.col.r, t.c.col.r)),
        g: blend_channel(n, z, (t.a.col.g, t.b.col.g, t.c.col.g)),
        b: blend_channel(n, z, (t.a.col.b, t.b.col.b, t.c.col.b)),
    }
}

} // verus!
