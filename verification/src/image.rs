use vstd::prelude::*;
use crate::fixed::{COORD_LIMIT, lemma_grid_coords, lemma_sample_within};
use crate::engine::{escape_counter, palette_rgb, palette_color, pixel_counter};
use crate::pixel::Pixel;

verus! {

/// Side length of the fixed pixel grid.
pub const GRID_DIM: usize = 512;

/// Real part of the zoom target, in 48-bit fixed point.
pub const TARGET_X: i128 = -218335570535182;

/// Imaginary part of the zoom target, in 48-bit fixed point.
pub const TARGET_Y: i128 = 38412149312512;

/// Half the side length of the initial viewport: 2 units of the plane,
/// in 48-bit fixed point.
pub const HALF_SIZE: i128 = 562949953421312;

/// Span of the initial viewport on each axis: 4 units of the plane,
/// in 48-bit fixed point.
pub const INITIAL_RANGE: i128 = 2 * HALF_SIZE;

/// Iteration budget of the first frame.
pub const INITIAL_DEPTH: i32 = 40;

/// The complex-plane abscissa the k-th pixel column is sampled at.
pub open spec fn point_re(sx: int, ex: int, w: int, col: int) -> int {
    sx + ((ex - sx) / w) * col
}

/// The complex-plane ordinate the k-th pixel row is sampled at.
pub open spec fn point_im(sy: int, ey: int, h: int, row: int) -> int {
    sy + ((ey - sy) / h) * row
}

/// The color owed to the pixel of row-major index i: a pure function of the
/// viewport, the grid dimensions, the iteration budget and the index.
pub open spec fn pixel_rgb(
    sx: int,
    sy: int,
    ex: int,
    ey: int,
    w: int,
    h: int,
    depth: int,
    i: int,
) -> (int, int, int) {
    palette_rgb(
        escape_counter(point_re(sx, ex, w, i % w), point_im(sy, ey, h, i / w), depth as nat) as int,
        depth,
    )
}

/// How far each viewport edge moves toward the center on one tick.
pub open spec fn zoom_step(d: int) -> int {
    d / 8
}

/// The axis range left after one tick narrows a range of d.
pub open spec fn tick_range(d: int) -> int {
    d - 2 * (d / 8)
}

/// The raster image: a fixed grid of pixels, the complex-plane viewport it
/// renders, and the iteration budget of the escape test.
pub struct Image {
    height: usize,
    width: usize,
    contents: Vec<Pixel>,
    sx: i128,
    sy: i128,
    ex: i128,
    ey: i128,
    count: i32,
}

impl Image {
    pub closed spec fn spec_width(self) -> int {
        self.width as int
    }

    pub closed spec fn spec_height(self) -> int {
        self.height as int
    }

    pub closed spec fn spec_sx(self) -> int {
        self.sx as int
    }

    pub closed spec fn spec_sy(self) -> int {
        self.sy as int
    }

    pub closed spec fn spec_ex(self) -> int {
        self.ex as int
    }

    pub closed spec fn spec_ey(self) -> int {
        self.ey as int
    }

    pub closed spec fn spec_depth(self) -> int {
        self.count as int
    }

    pub closed spec fn pixels(self) -> Seq<Pixel> {
        self.contents@
    }

    /// Well-formedness: positive bounded dimensions, a grid of exactly
    /// width * height pixels, a non-inverted viewport within the engine's
    /// coordinate window, and a positive iteration budget.
    pub open spec fn wf(self) -> bool {
        &&& 1 <= self.spec_width() <= 0x8000
        &&& 1 <= self.spec_height() <= 0x8000
        &&& self.pixels().len() == self.spec_width() * self.spec_height()
        &&& -(COORD_LIMIT as int) <= self.spec_sx() < self.spec_ex() <= COORD_LIMIT as int
        &&& -(COORD_LIMIT as int) <= self.spec_sy() < self.spec_ey() <= COORD_LIMIT as int
        &&& 1 <= self.spec_depth() <= i32::MAX
    }

    /// Every pixel holds exactly the color the current frame parameters owe it.
    pub open spec fn is_filled(self) -> bool {
        forall|i: int|
            0 <= i < self.pixels().len() ==> (#[trigger] self.pixels()[i]).rgb() == pixel_rgb(
                self.spec_sx(),
                self.spec_sy(),
                self.spec_ex(),
                self.spec_ey(),
                self.spec_width(),
                self.spec_height(),
                self.spec_depth(),
                i,
            )
    }

    /// A grid of arbitrary dimensions and viewport, filled on construction.
    pub fn with_frame(
        width: usize,
        height: usize,
        sx: i128,
        sy: i128,
        ex: i128,
        ey: i128,
        depth: i32,
    ) -> (img: Image)
        requires
            1 <= width <= 0x8000,
            1 <= height <= 0x8000,
            -COORD_LIMIT <= sx < ex <= COORD_LIMIT,
            -COORD_LIMIT <= sy < ey <= COORD_LIMIT,
            1 <= depth,
        ensures
            img.wf(),
            img.is_filled(),
            img.spec_width() == width as int,
            img.spec_height() == height as int,
            img.spec_sx() == sx as int,
            img.spec_sy() == sy as int,
            img.spec_ex() == ex as int,
            img.spec_ey() == ey as int,
            img.spec_depth() == depth as int,
    {
        proof {
            assert(width * height <= 0x40000000) by (nonlinear_arith)
                requires
                    width <= 0x8000,
                    height <= 0x8000,
            ;
        }
        let mut img = Image {
            height,
            width,
            contents: blank_grid(width * height),
            sx,
            sy,
            ex,
            ey,
            count: depth,
        };
        img.fill();
        img
    }

    /// The initial frame: the fixed grid, the viewport of half-size 2 around
    /// the zoom target, and the starting budget, rendered once.
    pub fn new() -> (img: Image)
        ensures
            img.wf(),
            img.is_filled(),
            img.spec_width() == GRID_DIM as int,
            img.spec_height() == GRID_DIM as int,
            img.spec_sx() == TARGET_X - HALF_SIZE,
            img.spec_sy() == TARGET_Y - HALF_SIZE,
            img.spec_ex() == TARGET_X + HALF_SIZE,
            img.spec_ey() == TARGET_Y + HALF_SIZE,
            img.spec_depth() == INITIAL_DEPTH as int,
    {
        Image::with_frame(
            GRID_DIM,
            GRID_DIM,
            TARGET_X - HALF_SIZE,
            TARGET_Y - HALF_SIZE,
            TARGET_X + HALF_SIZE,
            TARGET_Y + HALF_SIZE,
            INITIAL_DEPTH,
        )
    }

    pub fn get_height(&self) -> (h: u32)
        requires
            self.wf(),
        ensures
            h as int == self.spec_height(),
    {
        self.height as u32
    }

    pub fn get_width(&self) -> (w: u32)
        requires
            self.wf(),
        ensures
            w as int == self.spec_width(),
    {
        self.width as u32
    }

    /// Read-only view of the pixel grid, row-major; valid until the next tick.
    pub fn contents(&self) -> (v: &Vec<Pixel>)
        ensures
            v@ == self.pixels(),
    {
        &self.contents
    }

    /// The current viewport corners (sx, sy, ex, ey).
    pub fn viewport(&self) -> (v: (i128, i128, i128, i128))
        ensures
            v.0 as int == self.spec_sx(),
            v.1 as int == self.spec_sy(),
            v.2 as int == self.spec_ex(),
            v.3 as int == self.spec_ey(),
    {
        (self.sx, self.sy, self.ex, self.ey)
    }

    /// The current iteration budget.
    pub fn max_depth(&self) -> (d: i32)
        ensures
            d as int == self.spec_depth(),
    {
        self.count
    }

    /// Recomputes every pixel from the current frame parameters; nothing else
    /// of the buffer changes.
    pub fn fill(&mut self)
        requires
            old(self).wf(),
        ensures
            final(self).wf(),
            final(self).is_filled(),
            final(self).spec_width() == old(self).spec_width(),
            final(self).spec_height() == old(self).spec_height(),
            final(self).spec_sx() == old(self).spec_sx(),
            final(self).spec_sy() == old(self).spec_sy(),
            final(self).spec_ex() == old(self).spec_ex(),
            final(self).spec_ey() == old(self).spec_ey(),
            final(self).spec_depth() == old(self).spec_depth(),
    {
        let w: usize = self.width;
        let h: usize = self.height;
        let sx: i128 = self.sx;
        let sy: i128 = self.sy;
        let ex: i128 = self.ex;
        let ey: i128 = self.ey;
        let depth: u32 = self.count as u32;
        let step_x: i128 = (ex - sx) / (w as i128);
        let step_y: i128 = (ey - sy) / (h as i128);
        let len: usize = self.contents.len();
        let mut i: usize = 0;
        while i < len
            invariant
                self.wf(),
                i <= len,
                len == self.pixels().len(),
                self.spec_width() == w as int,
                self.spec_height() == h as int,
                self.spec_sx() == sx as int,
                self.spec_sy() == sy as int,
                self.spec_ex() == ex as int,
                self.spec_ey() == ey as int,
                self.spec_depth() == depth as int,
                step_x == (ex - sx) as int / (w as int),
                step_y == (ey - sy) as int / (h as int),
                forall|j: int|
                    0 <= j < i ==> (#[trigger] self.pixels()[j]).rgb() == pixel_rgb(
                        sx as int,
                        sy as int,
                        ex as int,
                        ey as int,
                        w as int,
                        h as int,
                        depth as int,
                        j,
                    ),
            decreases len - i,
        {
            proof {
                lemma_grid_coords(i as int, w as int, h as int);
                lemma_sample_within((ex - sx) as int, w as int, (i as int) % (w as int));
                lemma_sample_within((ey - sy) as int, h as int, (i as int) / (w as int));
            }
            let col: usize = i % w;
            let row: usize = i / w;
            let cr: i128 = sx + step_x * (col as i128);
            let ci: i128 = sy + step_y * (row as i128);
            let n: u32 = pixel_counter(cr, ci, depth);
            let c: (u8, u8, u8) = palette_color(n, depth);
            let px = &mut self.contents[i];
            px.set_color(c.0, c.1, c.2);
            proof {
                assert(cr as int == point_re(sx as int, ex as int, w as int, i as int % w as int));
                assert(ci as int == point_im(sy as int, ey as int, h as int, i as int / w as int));
                assert(self.pixels()[i as int].rgb() == pixel_rgb(
                    sx as int,
                    sy as int,
                    ex as int,
                    ey as int,
                    w as int,
                    h as int,
                    depth as int,
                    i as int,
                ));
            }
            i = i + 1;
        }
    }

    /// One animation step: each viewport edge moves an eighth of the current
    /// range toward the center (so the range becomes three quarters of what it
    /// was, around the same midpoint), the budget deepens by 5, and the whole
    /// grid is recomputed.
    pub fn tick(&mut self)
        requires
            old(self).wf(),
            old(self).spec_depth() + 5 <= i32::MAX,
        ensures
            final(self).wf(),
            final(self).is_filled(),
            final(self).spec_width() == old(self).spec_width(),
            final(self).spec_height() == old(self).spec_height(),
            final(self).spec_sx() == old(self).spec_sx() + zoom_step(
                old(self).spec_ex() - old(self).spec_sx(),
            ),
            final(self).spec_ex() == old(self).spec_ex() - zoom_step(
                old(self).spec_ex() - old(self).spec_sx(),
            ),
            final(self).spec_sy() == old(self).spec_sy() + zoom_step(
                old(self).spec_ey() - old(self).spec_sy(),
            ),
            final(self).spec_ey() == old(self).spec_ey() - zoom_step(
                old(self).spec_ey() - old(self).spec_sy(),
            ),
            final(self).spec_depth() == old(self).spec_depth() + 5,
            final(self).spec_sx() + final(self).spec_ex() == old(self).spec_sx() + old(
                self,
            ).spec_ex(),
            final(self).spec_sy() + final(self).spec_ey() == old(self).spec_sy() + old(
                self,
            ).spec_ey(),
            final(self).spec_ex() - final(self).spec_sx() == tick_range(
                old(self).spec_ex() - old(self).spec_sx(),
            ),
            final(self).spec_ey() - final(self).spec_sy() == tick_range(
                old(self).spec_ey() - old(self).spec_sy(),
            ),
    {
        let step_zoom_x: i128 = (self.ex - self.sx) / 8;
        let step_zoom_y: i128 = (self.ey - self.sy) / 8;
        self.sx = self.sx + step_zoom_x;
        self.sy = self.sy + step_zoom_y;
        self.ex = self.ex - step_zoom_x;
        self.ey = self.ey - step_zoom_y;
        self.count = self.count + 5;
        self.fill();
    }
}

/// A grid of n pixels, all black.
fn blank_grid(n: usize) -> (v: Vec<Pixel>)
    ensures
        v@.len() == n,
{
    let mut v: Vec<Pixel> = Vec::new();
    let mut k: usize = 0;
    while k < n
        invariant
            k <= n,
            v@.len() == k,
        decreases n - k,
    {
        v.push(Pixel::new());
        k = k + 1;
    }
    v
}

} // verus!
