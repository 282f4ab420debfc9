use rasterizers::barycentric::{BarycentricSystem, BoundingBox, Vec2, Weights};
use rasterizers::color::{pack_color, Rgb};
use rasterizers::interpolator::Interpolator;
use rasterizers::raytraced::{HitWeights, Ray};
use rasterizers::scanline::{ScanVertex, INV_ONE};
use rasterizers::screen::{blend_channel, ScreenTriangle, ScreenVertex};
use rasterizers::triangle::{floor_div, Rotation, Triangle, Turn, Vec3, Vertex, ONE, SCALE_ONE};

fn sv(x: i16, y: i16, depth: u32, col: Rgb) -> ScreenVertex {
    ScreenVertex { x, y, depth, col }
}

const BLACK: Rgb = Rgb { r: 0, g: 0, b: 0 };

fn still() -> Rotation {
    let t = Turn { sin: 0, cos: ONE as i32 };
    Rotation { x: t, y: t, z: t }
}

#[test]
fn interpolator_progress_matches_floor_of_linear_value() {
    let mut it = Interpolator::build(0, 10, 4);
    assert_eq!(it.curr(), 0);
    assert_eq!(it.progress(), 2);
    assert_eq!(it.progress(), 5);
    assert_eq!(it.progress(), 7);
    assert_eq!(it.progress(), 10);
    assert_eq!(it.regress(), 7);
    assert_eq!(it.regress(), 5);
}

#[test]
fn interpolator_descending_rounds_down() {
    let mut it = Interpolator::build(10, 0, 3);
    assert_eq!(it.progress(), 6);
    assert_eq!(it.progress(), 3);
    assert_eq!(it.progress(), 0);
    assert_eq!(it.regress(), 3);
}

#[test]
fn interpolator_round_trip_lands_on_end() {
    for &(start, end) in &[(0i64, 1i64), (-7, 13), (100, -250), (5, 5), (-1_000_000, 999_999)] {
        for steps in 1..40i64 {
            let mut it = Interpolator::build(start, end, steps);
            for i in 1..=steps {
                let v = it.progress();
                let exact = start as i128 + ((end - start) as i128 * i as i128).div_euclid(steps as i128);
                assert_eq!(v as i128, exact);
            }
            assert_eq!(it.curr(), end);
            for _ in 0..steps {
                it.regress();
            }
            assert_eq!(it.curr(), start);
        }
    }
}

#[test]
fn pack_color_layout() {
    assert_eq!(pack_color(&Rgb { r: 1, g: 2, b: 3 }), 0xff01_0203);
    assert_eq!(pack_color(&Rgb { r: 255, g: 255, b: 255 }), 0xffff_ffff);
    assert_eq!(pack_color(&BLACK), 0xff00_0000);
}

fn right_triangle() -> ScreenTriangle {
    ScreenTriangle {
        a: sv(0, 0, 1, BLACK),
        b: sv(10, 0, 1, BLACK),
        c: sv(0, 10, 1, BLACK),
    }
}

#[test]
fn weights_at_vertices_are_unit() {
    let sys = BarycentricSystem::from(&right_triangle());
    assert_eq!(sys.calculate_point(Vec2 { x: 0, y: 0 }), Weights { l0: 400, l1: 0, l2: 0 });
    assert_eq!(sys.calculate_point(Vec2 { x: 20, y: 0 }), Weights { l0: 0, l1: 400, l2: 0 });
    assert_eq!(sys.calculate_point(Vec2 { x: 0, y: 20 }), Weights { l0: 0, l1: 0, l2: 400 });
}

#[test]
fn weights_inside_are_positive_and_sum_to_area() {
    let sys = BarycentricSystem::from(&right_triangle());
    for &(x, y) in &[(1i64, 1i64), (5, 5), (10, 3), (2, 15)] {
        let w = sys.calculate_point(Vec2 { x, y });
        assert!(w.l0 > 0 && w.l1 > 0 && w.l2 > 0);
        assert_eq!(w.l0 + w.l1 + w.l2, 400);
        let sum = w.l0 as f64 / 400.0 + w.l1 as f64 / 400.0 + w.l2 as f64 / 400.0;
        assert!((sum - 1.0).abs() < 1e-4);
        assert!(sys.within_triangle(w));
    }
}

#[test]
fn within_triangle_edges_and_outside() {
    let sys = BarycentricSystem::from(&right_triangle());
    assert!(sys.within_triangle(sys.calculate_point(Vec2 { x: 10, y: 0 })));
    assert!(sys.within_triangle(sys.calculate_point(Vec2 { x: 10, y: 10 })));
    assert!(!sys.within_triangle(sys.calculate_point(Vec2 { x: 11, y: 10 })));
    assert!(!sys.within_triangle(sys.calculate_point(Vec2 { x: -1, y: 5 })));
    assert!(!sys.within_triangle(Weights { l0: 0, l1: 0, l2: 0 }));
    assert!(sys.within_triangle(Weights { l0: -1, l1: -2, l2: 0 }));
}

#[test]
fn bounds_and_extent() {
    let t = ScreenTriangle { a: sv(7, -3, 1, BLACK), b: sv(-2, 9, 1, BLACK), c: sv(4, 1, 1, BLACK) };
    let bb = t.bounds();
    assert_eq!(bb, BoundingBox { mins: Vec2 { x: -2, y: -3 }, maxs: Vec2 { x: 7, y: 9 } });
    assert_eq!(bb.width(), 9);
    assert_eq!(bb.height(), 12);
}

#[test]
fn blend_channel_is_perspective_correct() {
    // Halfway in screen space between a vertex at depth 1 and one at depth 3
    // lies a quarter of the way in depth-corrected terms.
    let v = blend_channel((1, 1, 0), (1, 3, 1), (0, 200, 0));
    assert_eq!(v, 50);
    let flat = blend_channel((1, 1, 0), (2, 2, 2), (0, 200, 0));
    assert_eq!(flat, 100);
}

#[test]
fn vertical_sort_is_stable() {
    let red = Rgb { r: 255, g: 0, b: 0 };
    let mut t = ScreenTriangle { a: sv(0, 5, 1, BLACK), b: sv(1, 2, 1, red), c: sv(2, 5, 1, BLACK) };
    t.vertex_vertical_sort();
    assert_eq!((t.a.x, t.b.x, t.c.x), (1, 0, 2));
    let mut u = ScreenTriangle { a: sv(0, 9, 1, BLACK), b: sv(1, 4, 1, BLACK), c: sv(2, 1, 1, BLACK) };
    u.vertex_vertical_sort();
    assert_eq!((u.a.y, u.b.y, u.c.y), (1, 4, 9));
}

#[test]
fn scan_vertex_premultiplies_by_inverse_depth() {
    let v = ScanVertex::build(&sv(3, 4, 1024, Rgb { r: 2, g: 0, b: 255 }));
    let invd = INV_ONE / 1024;
    assert_eq!(v, ScanVertex { x: 3, invd, r: 2 * invd, g: 0, b: 255 * invd });
}

#[test]
fn floor_div_rounds_down() {
    assert_eq!(floor_div(7, 2), 3);
    assert_eq!(floor_div(-7, 2), -4);
    assert_eq!(floor_div(-8, 2), -4);
    assert_eq!(floor_div(0, 5), 0);
}

fn triangle(scale: i32, pos: Vec3) -> Triangle {
    Triangle {
        a: Vertex { pos: Vec3 { x: -512, y: -400, z: 0 }, col: Rgb { r: 255, g: 0, b: 0 } },
        b: Vertex { pos: Vec3 { x: 512, y: -400, z: 0 }, col: Rgb { r: 0, g: 255, b: 0 } },
        c: Vertex { pos: Vec3 { x: 0, y: 500, z: 0 }, col: Rgb { r: 0, g: 0, b: 255 } },
        pos,
        rot: still(),
        scale,
    }
}

#[test]
fn world_transform_scales_and_translates() {
    let t = triangle(2 * SCALE_ONE as i32, Vec3 { x: 10, y: -20, z: 1024 });
    let w = t.world_transform();
    assert_eq!(w.a.pos, Vec3 { x: -1014, y: -820, z: 1024 });
    assert_eq!(w.b.pos, Vec3 { x: 1034, y: -820, z: 1024 });
    assert_eq!(w.c.pos, Vec3 { x: 10, y: 980, z: 1024 });
    assert_eq!(w.a.col, t.a.col);
}

#[test]
fn world_transform_rotates_quarter_turn_about_z() {
    let mut t = triangle(SCALE_ONE as i32, Vec3 { x: 0, y: 0, z: 0 });
    t.rot.z = Turn { sin: ONE as i32, cos: 0 };
    let w = t.world_transform();
    // (x, y) turns into (-y, x).
    assert_eq!(w.a.pos, Vec3 { x: 400, y: -512, z: 0 });
    assert_eq!(w.c.pos, Vec3 { x: -500, y: 0, z: 0 });
}

#[test]
fn screen_transform_maps_to_pixels() {
    let t = triangle(SCALE_ONE as i32, Vec3 { x: 0, y: 0, z: 1024 });
    let s = t.screen_transform(100, 100).unwrap();
    assert_eq!((s.a.x, s.a.y, s.a.depth), (25, 69, 1024));
    assert_eq!((s.b.x, s.b.y, s.b.depth), (75, 69, 1024));
    assert_eq!((s.c.x, s.c.y, s.c.depth), (50, 25, 1024));
    assert_eq!(s.a.col, t.a.col);
}

#[test]
fn screen_transform_rejects_vertices_behind_the_camera() {
    let t = triangle(SCALE_ONE as i32, Vec3 { x: 0, y: 0, z: 0 });
    assert!(t.screen_transform(100, 100).is_none());
    let t = triangle(SCALE_ONE as i32, Vec3 { x: 0, y: 0, z: -2048 });
    assert!(t.screen_transform(100, 100).is_none());
}

#[test]
fn ray_hits_and_misses() {
    let t = Triangle {
        a: Vertex { pos: Vec3 { x: -10, y: -10, z: 5 }, col: BLACK },
        b: Vertex { pos: Vec3 { x: 10, y: -10, z: 5 }, col: BLACK },
        c: Vertex { pos: Vec3 { x: 0, y: 10, z: 5 }, col: BLACK },
        pos: Vec3 { x: 0, y: 0, z: 0 },
        rot: still(),
        scale: SCALE_ONE as i32,
    };
    let origin = Vec3 { x: 0, y: 0, z: 0 };
    let hit = Ray { origin, direc: Vec3 { x: 0, y: 0, z: 1 } }.intersection(&t).unwrap();
    let HitWeights { l0, l1, l2 } = hit;
    assert!(l0 > 0 && l1 > 0 && l2 > 0);
    assert_eq!(l1, l0);
    assert_eq!(l2, l0 + l1);
    assert!(Ray { origin, direc: Vec3 { x: 5, y: 0, z: 1 } }.intersection(&t).is_none());
    assert!(Ray { origin, direc: Vec3 { x: 1, y: 0, z: 0 } }.intersection(&t).is_none());
    // The same line backwards meets the triangle behind the origin.
    assert!(Ray { origin, direc: Vec3 { x: 0, y: 0, z: -1 } }.intersection(&t).is_none());
}
