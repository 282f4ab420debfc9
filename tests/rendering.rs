use rasterizers::barycentric;
use rasterizers::buffer::FrameBuffer;
use rasterizers::color::Rgb;
use rasterizers::raytraced;
use rasterizers::scanline;
use rasterizers::screen::{ScreenTriangle, ScreenVertex};
use rasterizers::triangle::{Rotation, Triangle, Turn, Vec3, Vertex, ONE, SCALE_ONE};

const BACKGROUND: Rgb = Rgb { r: 26, g: 26, b: 38 };

type Renderer = fn(&mut FrameBuffer, &Triangle);

const RENDERERS: [Renderer; 3] = [barycentric::render, scanline::render, raytraced::render];

fn turn(angle: f64) -> Turn {
    Turn { sin: (angle.sin() * ONE as f64).round() as i32, cos: (angle.cos() * ONE as f64).round() as i32 }
}

fn rotation(x: f64, y: f64, z: f64) -> Rotation {
    Rotation { x: turn(x), y: turn(y), z: turn(z) }
}

fn rgb_triangle(depth: i32) -> Triangle {
    Triangle {
        a: Vertex { pos: Vec3 { x: -512, y: -400, z: 0 }, col: Rgb { r: 255, g: 0, b: 0 } },
        b: Vertex { pos: Vec3 { x: 512, y: -400, z: 0 }, col: Rgb { r: 0, g: 255, b: 0 } },
        c: Vertex { pos: Vec3 { x: 0, y: 500, z: 0 }, col: Rgb { r: 0, g: 0, b: 255 } },
        pos: Vec3 { x: 0, y: 0, z: depth },
        rot: rotation(0.0, 0.0, 0.0),
        scale: SCALE_ONE as i32,
    }
}

fn pixels(buffer: &FrameBuffer) -> Vec<Rgb> {
    let mut out = Vec::new();
    for y in 0..buffer.height() {
        for x in 0..buffer.width() {
            out.push(buffer.get(x, y));
        }
    }
    out
}

fn coverage(render: Renderer, triangle: &Triangle, w: usize, h: usize) -> Vec<bool> {
    let mut buffer = FrameBuffer::new(w, h, BACKGROUND);
    render(&mut buffer, triangle);
    pixels(&buffer).into_iter().map(|p| p != BACKGROUND).collect()
}

#[test]
fn frame_buffer_set_get_clear() {
    let mut b = FrameBuffer::new(3, 2, BACKGROUND);
    assert_eq!((b.width(), b.height()), (3, 2));
    let red = Rgb { r: 255, g: 0, b: 0 };
    b.set(2, 1, red);
    assert_eq!(b.get(2, 1), red);
    assert_eq!(b.get(1, 1), BACKGROUND);
    assert_eq!(b.get(2, 0), BACKGROUND);
    b.clear(red);
    assert!(pixels(&b).iter().all(|&p| p == red));
    let empty = FrameBuffer::new(0, 0, red);
    assert_eq!(pixels(&empty).len(), 0);
}

#[test]
fn centroid_of_rgb_triangle_is_grey() {
    for render in RENDERERS {
        let mut buffer = FrameBuffer::new(100, 100, BACKGROUND);
        render(&mut buffer, &rgb_triangle(1024));
        // Screen vertices (25, 69), (75, 69), (50, 25): centroid (50, 54.3).
        let c = buffer.get(50, 54);
        for ch in [c.r, c.g, c.b] {
            assert!((ch as i32 - 85).abs() <= 6, "{:?}", c);
        }
    }
}

#[test]
fn perspective_correct_colour_matches_analytic_blend() {
    let t = ScreenTriangle {
        a: ScreenVertex { x: 10, y: 10, depth: 100, col: Rgb { r: 255, g: 0, b: 0 } },
        b: ScreenVertex { x: 90, y: 10, depth: 400, col: Rgb { r: 0, g: 255, b: 0 } },
        c: ScreenVertex { x: 10, y: 90, depth: 1600, col: Rgb { r: 0, g: 0, b: 255 } },
    };
    let mut buffer = FrameBuffer::new(100, 100, BACKGROUND);
    barycentric::fill(&mut buffer, &t);
    for &(x, y) in &[(20usize, 20usize), (50, 20), (20, 50), (40, 40), (12, 80), (80, 12)] {
        let (px, py) = (x as f64 + 0.5, y as f64 + 0.5);
        let area = 80.0 * 80.0;
        let l1 = (px - 10.0) * 80.0 / area;
        let l2 = (py - 10.0) * 80.0 / area;
        let l0 = 1.0 - l1 - l2;
        let (z0, z1, z2) = (100.0, 400.0, 1600.0);
        let inv = l0 / z0 + l1 / z1 + l2 / z2;
        let expect = [255.0 * l0 / z0 / inv, 255.0 * l1 / z1 / inv, 255.0 * l2 / z2 / inv];
        let screen_linear = [255.0 * l0, 255.0 * l1, 255.0 * l2];
        let got = buffer.get(x, y);
        let got = [got.r as f64, got.g as f64, got.b as f64];
        for i in 0..3 {
            assert!((got[i] - expect[i]).abs() <= 1.0, "{:?} at {:?}", got, (x, y));
        }
        assert!((0..3).any(|i| (got[i] - screen_linear[i]).abs() > 2.0));
    }
}

#[test]
fn degenerate_triangle_draws_nothing() {
    let mut t = rgb_triangle(4096);
    t.a.pos = Vec3 { x: -512, y: -512, z: 0 };
    t.b.pos = Vec3 { x: 0, y: 0, z: 0 };
    t.c.pos = Vec3 { x: 512, y: 512, z: 0 };
    for render in RENDERERS {
        let mut buffer = FrameBuffer::new(64, 48, BACKGROUND);
        let before = pixels(&buffer);
        render(&mut buffer, &t);
        assert_eq!(pixels(&buffer), before);
    }
}

#[test]
fn degenerate_screen_triangle_fills_nothing() {
    let v = |x: i16, y: i16| ScreenVertex { x, y, depth: 7, col: Rgb { r: 9, g: 9, b: 9 } };
    for t in [
        ScreenTriangle { a: v(0, 0), b: v(10, 5), c: v(20, 10) },
        ScreenTriangle { a: v(3, 4), b: v(3, 30), c: v(3, 12) },
        ScreenTriangle { a: v(1, 7), b: v(30, 7), c: v(12, 7) },
        ScreenTriangle { a: v(2, 2), b: v(2, 2), c: v(2, 2) },
    ] {
        let mut a = FrameBuffer::new(40, 40, BACKGROUND);
        barycentric::fill(&mut a, &t);
        let mut b = FrameBuffer::new(40, 40, BACKGROUND);
        scanline::fill(&mut b, &t);
        assert!(pixels(&a).iter().all(|&p| p == BACKGROUND));
        assert!(pixels(&b).iter().all(|&p| p == BACKGROUND));
    }
}

#[test]
fn zero_depth_draws_nothing() {
    let v = |x: i16, y: i16, depth: u32| ScreenVertex { x, y, depth, col: Rgb { r: 9, g: 9, b: 9 } };
    let t = ScreenTriangle { a: v(0, 0, 0), b: v(30, 0, 5), c: v(0, 30, 5) };
    let mut a = FrameBuffer::new(40, 40, BACKGROUND);
    barycentric::fill(&mut a, &t);
    scanline::fill(&mut a, &t);
    assert!(pixels(&a).iter().all(|&p| p == BACKGROUND));
}

#[test]
fn rasterizers_agree_on_interior() {
    let mut t = rgb_triangle(3072);
    t.rot = rotation(0.3, 0.2, 0.7);
    t.scale = 4 * SCALE_ONE as i32;
    let (w, h) = (120usize, 90usize);
    let covers: Vec<Vec<bool>> = RENDERERS.iter().map(|&r| coverage(r, &t, w, h)).collect();
    let reference = &covers[0];
    let filled = reference.iter().filter(|&&c| c).count();
    assert!(filled > 300, "{}", filled);
    for cover in &covers[1..] {
        let mut boundary_diffs = 0;
        for y in 0..h {
            for x in 0..w {
                let i = y * w + x;
                if cover[i] == reference[i] {
                    continue;
                }
                let interior = x > 0
                    && y > 0
                    && x + 1 < w
                    && y + 1 < h
                    && [(0i64, 1i64), (0, -1), (1, 0), (-1, 0), (1, 1), (-1, -1), (1, -1), (-1, 1)]
                        .iter()
                        .all(|&(dx, dy)| reference[((y as i64 + dy) as usize) * w + (x as i64 + dx) as usize]);
                assert!(!interior, "interior pixel ({}, {}) differs", x, y);
                boundary_diffs += 1;
            }
        }
        assert!(boundary_diffs * 5 < filled);
    }
}

#[test]
fn full_revolution_reproduces_the_image() {
    let base = rgb_triangle(3072);
    let mut first = FrameBuffer::new(80, 60, BACKGROUND);
    let mut again = FrameBuffer::new(80, 60, BACKGROUND);
    let steps = 200;
    let mut angle = 0.0f64;
    for _ in 0..steps {
        angle += std::f64::consts::TAU / steps as f64;
    }
    for render in RENDERERS {
        first.clear(BACKGROUND);
        render(&mut first, &base);
        let mut turned = base;
        turned.rot = rotation(angle, angle, angle);
        again.clear(BACKGROUND);
        render(&mut again, &turned);
        assert_eq!(pixels(&first), pixels(&again));
    }
}

#[test]
fn behind_camera_draws_nothing() {
    let t = rgb_triangle(-1024);
    for render in RENDERERS {
        let mut buffer = FrameBuffer::new(50, 50, BACKGROUND);
        render(&mut buffer, &t);
        assert!(pixels(&buffer).iter().all(|&p| p == BACKGROUND));
    }
}

#[test]
fn scanline_shares_the_middle_row_once() {
    let v = |x: i16, y: i16| ScreenVertex { x, y, depth: 10, col: Rgb { r: 200, g: 100, b: 50 } };
    let t = ScreenTriangle { a: v(5, 2), b: v(30, 10), c: v(10, 25) };
    let mut buffer = FrameBuffer::new(40, 40, BACKGROUND);
    scanline::fill(&mut buffer, &t);
    let row: Vec<bool> = (0..40).map(|x| buffer.get(x, 10) != BACKGROUND).collect();
    assert!(row.iter().filter(|&&c| c).count() > 10);
    assert_eq!(buffer.get(12, 12), Rgb { r: 200, g: 100, b: 50 });
    assert!(buffer.get(20, 2) == BACKGROUND && buffer.get(5, 30) == BACKGROUND);
}
