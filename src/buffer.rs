//! The frame buffer that the rasterizers draw into.
use vstd::prelude::*;
use crate::color::Rgb;

verus! {

/// The largest width or height of a frame buffer: pixel coordinates are
/// 16-bit signed values throughout the geometry.
pub const MAX_DIM: usize = 32767;

/// A `width` x `height` grid of colours, stored row by row.
pub struct FrameBuffer {
    width: usize,
    height: usize,
    data: Vec<Rgb>,
}

proof fn lemma_index(w: int, h: int, x: int, y: int)
    requires
        0 <= x < w,
        0 <= y < h,
    ensures
        0 <= y * w + x < w * h,
        0 <= y * w,
        w <= MAX_DIM && h <= MAX_DIM ==> w * h <= MAX_DIM * MAX_DIM,
{
    if w <= MAX_DIM && h <= MAX_DIM {
        assert(w * h <= MAX_DIM * MAX_DIM) by (nonlinear_arith)
            requires
                0 <= w <= MAX_DIM,
                0 <= h <= MAX_DIM,
        ;
    }
    assert(y * w + x < w * h) by (nonlinear_arith)
        requires
            0 <= x < w,
            0 <= y < h,
    ;
    assert(0 <= y * w) by (nonlinear_arith)
        requires
            0 <= x < w,
            0 <= y < h,
    ;
}

proof fn lemma_index_injective(w: int, x1: int, y1: int, x2: int, y2: int)
    requires
        0 <= x1 < w,
        0 <= x2 < w,
        0 <= y1,
        0 <= y2,
        y1 * w + x1 == y2 * w + x2,
    ensures
        x1 == x2,
        y1 == y2,
{
    vstd::arithmetic::div_mod::lemma_fundamental_div_mod_converse(y1 * w + x1, w, y1, x1);
    vstd::arithmetic::div_mod::lemma_fundamental_div_mod_converse(y2 * w + x2, w, y2, x2);
}

impl FrameBuffer {
    pub closed spec fn width_spec(&self) -> int {
        self.width as int
    }

    pub closed spec fn height_spec(&self) -> int {
        self.height as int
    }

    /// The colour at column `x` of row `y`.
    pub closed spec fn pixel(&self, x: int, y: int) -> Rgb {
        self.data@[y * self.width + x]
    }

    pub closed spec fn wf(&self) -> bool {
        &&& self.width <= MAX_DIM
        &&& self.height <= MAX_DIM
        &&& self.data@.len() == self.width * self.height
    }

    /// A buffer of the given size with every pixel set to `fill`.
    pub fn new(width: usize, height: usize, fill: Rgb) -> (r: Self)
        requires
            width <= MAX_DIM,
            height <= MAX_DIM,
        ensures
            r.wf(),
            r.width_spec() == width,
            r.height_spec() == height,
            forall|x: int, y: int| 0 <= x < width && 0 <= y < height ==> r.pixel(x, y) == fill,
    {
        proof {
            assert(width * height <= MAX_DIM * MAX_DIM) by (nonlinear_arith)
                requires
                    width <= MAX_DIM,
                    height <= MAX_DIM,
            ;
        }
        let n: usize = width * height;
        let mut data: Vec<Rgb> = Vec::new();
        let mut i: usize = 0;
        while i < n
            invariant
                i <= n,
                data@.len() == i,
                forall|k: int| 0 <= k < i ==> data@[k] == fill,
            decreases n - i,
        {
            data.push(fill);
            i = i + 1;
        }
        let r = FrameBuffer { width, height, data };
        assert forall|x: int, y: int| 0 <= x < width && 0 <= y < height implies r.pixel(x, y) == fill by {
            lemma_index(width as int, height as int, x, y);
        }
        r
    }

    pub fn width(&self) -> (r: usize)
        ensures
            r == self.width_spec(),
            self.wf() ==> r <= MAX_DIM,
    {
        self.width
    }

    pub fn height(&self) -> (r: usize)
        ensures
            r == self.height_spec(),
            self.wf() ==> r <= MAX_DIM,
    {
        self.height
    }

    /// The colour at column `x` of row `y`.
    pub fn get(&self, x: usize, y: usize) -> (r: Rgb)
        requires
            self.wf(),
            x < self.width_spec(),
            y < self.height_spec(),
        ensures
            r == self.pixel(x as int, y as int),
    {
        proof {
            lemma_index(self.width as int, self.height as int, x as int, y as int);
        }
        self.data[y * self.width + x]
    }

    /// Writes `color` at column `x` of row `y`; every other pixel keeps its colour.
    pub fn set(&mut self, x: usize, y: usize, color: Rgb)
        requires
            old(self).wf(),
            x < old(self).width_spec(),
            y < old(self).height_spec(),
        ensures
            final(self).wf(),
            final(self).width_spec() == old(self).width_spec(),
            final(self).height_spec() == old(self).height_spec(),
            forall|px: int, py: int|
                0 <= px < old(self).width_spec() && 0 <= py < old(self).height_spec() ==>
                    final(self).pixel(px, py) == if px == x && py == y {
                        color
                    } else {
                        old(self).pixel(px, py)
                    },
    {
        proof {
            lemma_index(self.width as int, self.height as int, x as int, y as int);
        }
        let i: usize = y * self.width + x;
        self.data.set(i, color);
        let ghost w = self.width as int;
        assert forall|px: int, py: int|
            0 <= px < w && 0 <= py < self.height implies #[trigger] self.pixel(px, py) == if px == x
            && py == y {
            color
        } else {
            old(self).pixel(px, py)
        } by {
            lemma_index(w, self.height as int, px, py);
            if py * w + px == i as int {
                lemma_index_injective(w, px, py, x as int, y as int);
            }
        }
    }

    /// Sets every pixel to `fill`.
    pub fn clear(&mut self, fill: Rgb)
        requires
            old(self).wf(),
        ensures
            final(self).wf(),
            final(self).width_spec() == old(self).width_spec(),
            final(self).height_spec() == old(self).height_spec(),
            forall|x: int, y: int|
                0 <= x < old(self).width_spec() && 0 <= y < old(self).height_spec() ==> final(self).pixel(x, y) == fill,
    {
        let n: usize = self.data.len();
        let mut i: usize = 0;
        while i < n
            invariant
                i <= n,
                n == self.data@.len(),
                self.wf(),
                self.width == old(self).width,
                self.height == old(self).height,
                forall|k: int| 0 <= k < i ==> self.data@[k] == fill,
            decreases n - i,
        {
            self.data.set(i, fill);
            i = i + 1;
        }
        assert forall|x: int, y: int|
            0 <= x < self.width && 0 <= y < self.height implies self.pixel(x, y) == fill by {
            lemma_index(self.width as int, self.height as int, x, y);
        }
    }
}

} // verus!
