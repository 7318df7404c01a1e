//! The pixel canvas: a row-major grid of RGB colors with bounds-checked access.

use vstd::arithmetic::div_mod::{lemma_fundamental_div_mod, lemma_fundamental_div_mod_converse};
use vstd::prelude::*;

verus! {

/// An RGB color: red, green and blue, one byte each.
pub type Color = [u8; 3];

/// The color of a blank canvas, and the color read outside any canvas.
pub const WHITE: Color = [255, 255, 255];

/// `val` limited to the range from `min` to `max`.
pub open spec fn clamped(val: int, min: int, max: int) -> int {
    if val < min {
        min
    } else if val > max {
        max
    } else {
        val
    }
}

/// Limits `val` to the range from `min` to `max`.
pub fn clamp(val: usize, min: usize, max: usize) -> (r: usize)
    ensures
        r == clamped(val as int, min as int, max as int),
{
    if val < min {
        min
    } else if val > max {
        max
    } else {
        val
    }
}

/// The mathematical model of a canvas: its dimensions and its pixels in
/// row-major order, row 0 first.
pub struct Grid {
    pub width: nat,
    pub height: nat,
    pub pixels: Seq<Color>,
}

impl Grid {
    /// The pixel buffer has exactly one entry per cell.
    pub open spec fn wf(self) -> bool {
        self.pixels.len() == self.width * self.height
    }

    /// Whether `(x, y)` names a cell of the grid.
    pub open spec fn contains(self, x: int, y: int) -> bool {
        0 <= x < self.width && 0 <= y < self.height
    }

    /// The color at `(x, y)`; white outside the grid.
    pub open spec fn at(self, x: int, y: int) -> Color {
        if self.contains(x, y) {
            self.pixels[y * self.width + x]
        } else {
            WHITE
        }
    }

    /// A grid of the given dimensions with every cell white.
    pub open spec fn blank(width: nat, height: nat) -> Grid {
        Grid { width, height, pixels: Seq::new(width * height, |i: int| WHITE) }
    }

    /// The grid with the cell at `(x, y)` overwritten; the grid itself when
    /// `(x, y)` is outside it.
    pub open spec fn set(self, x: int, y: int, color: Color) -> Grid {
        if self.contains(x, y) {
            Grid { pixels: self.pixels.update(y * self.width + x, color), ..self }
        } else {
            self
        }
    }

    /// The grid with every cell of `region` overwritten by `color`. Points of
    /// `region` outside the grid have no effect.
    pub open spec fn paint(self, region: Set<(int, int)>, color: Color) -> Grid {
        Grid {
            pixels: Seq::new(
                self.pixels.len(),
                |i: int|
                    if region.contains((i % (self.width as int), i / (self.width as int))) {
                        color
                    } else {
                        self.pixels[i]
                    },
            ),
            ..self
        }
    }

    /// Every cell has exactly one index in the pixel buffer, and every index
    /// of the buffer belongs to exactly one cell.
    pub proof fn lemma_cell_index(self, x: int, y: int)
        requires
            self.wf(),
            self.contains(x, y),
        ensures
            0 <= y * self.width + x < self.pixels.len(),
            (y * self.width + x) % (self.width as int) == x,
            (y * self.width + x) / (self.width as int) == y,
    {
        let w = self.width as int;
        let h = self.height as int;
        assert(y * w + x < w * h) by (nonlinear_arith)
            requires
                0 <= x < w,
                0 <= y < h,
        ;
        assert(0 <= y * w) by (nonlinear_arith)
            requires
                0 <= y,
                0 <= w,
        ;
        lemma_fundamental_div_mod_converse(y * w + x, w, y, x);
    }

    /// The cell that owns index `i` of the pixel buffer.
    pub proof fn lemma_index_cell(self, i: int)
        requires
            self.wf(),
            0 <= i < self.pixels.len(),
        ensures
            self.contains(i % (self.width as int), i / (self.width as int)),
            (i / (self.width as int)) * self.width + i % (self.width as int) == i,
    {
        let w = self.width as int;
        let h = self.height as int;
        assert(w > 0) by (nonlinear_arith)
            requires
                0 <= i < w * h,
                0 <= w,
        ;
        lemma_fundamental_div_mod(i, w);
        let q = i / w;
        let r = i % w;
        assert(w * q == q * w) by (nonlinear_arith);
        assert(0 <= q < h) by (nonlinear_arith)
            requires
                i == q * w + r,
                0 <= r < w,
                0 <= i < w * h,
        ;
    }

    /// Reading a grid after one cell was set: the new color at that cell,
    /// the old color everywhere else.
    pub proof fn lemma_set_at(self, x: int, y: int, color: Color, px: int, py: int)
        requires
            self.wf(),
        ensures
            self.set(x, y, color).wf(),
            self.set(x, y, color).width == self.width,
            self.set(x, y, color).height == self.height,
            self.set(x, y, color).at(px, py) == if self.contains(x, y) && px == x && py == y {
                color
            } else {
                self.at(px, py)
            },
    {
        if self.contains(x, y) {
            self.lemma_cell_index(x, y);
            if self.contains(px, py) {
                self.lemma_cell_index(px, py);
            }
        }
    }

    /// Reading a grid after a region was painted: the new color inside the
    /// region, the old color outside it.
    pub proof fn lemma_paint_at(self, region: Set<(int, int)>, color: Color, x: int, y: int)
        requires
            self.wf(),
        ensures
            self.paint(region, color).wf(),
            self.paint(region, color).at(x, y) == if self.contains(x, y) && region.contains(
                (x, y),
            ) {
                color
            } else {
                self.at(x, y)
            },
    {
        if self.contains(x, y) {
            self.lemma_cell_index(x, y);
        }
    }

    /// A grid that agrees cell by cell with a painted grid is that painted
    /// grid.
    pub proof fn lemma_paint_by_cells(self, after: Grid, region: Set<(int, int)>, color: Color)
        requires
            self.wf(),
            after.wf(),
            after.width == self.width,
            after.height == self.height,
            forall|x: int, y: int|
                self.contains(x, y) ==> #[trigger] after.at(x, y) == if region.contains((x, y)) {
                    color
                } else {
                    self.at(x, y)
                },
        ensures
            after == self.paint(region, color),
    {
        let painted = self.paint(region, color);
        assert forall|i: int| 0 <= i < after.pixels.len() implies after.pixels[i]
            == painted.pixels[i] by {
            self.lemma_index_cell(i);
            let x = i % (self.width as int);
            let y = i / (self.width as int);
            assert(after.at(x, y) == after.pixels[i]);
        }
        assert(after.pixels =~= painted.pixels);
    }

    /// Setting one cell is painting the region that holds just that cell.
    pub proof fn lemma_set_is_paint(self, x: int, y: int, color: Color)
        requires
            self.wf(),
        ensures
            self.set(x, y, color) == self.paint(set![(x, y)], color),
    {
        let after = self.set(x, y, color);
        assert forall|px: int, py: int| self.contains(px, py) implies #[trigger] after.at(px, py)
            == if set![(x, y)].contains((px, py)) {
            color
        } else {
            self.at(px, py)
        } by {
            self.lemma_set_at(x, y, color, px, py);
        }
        self.lemma_set_at(x, y, color, 0, 0);
        self.lemma_paint_by_cells(after, set![(x, y)], color);
    }

    /// Painting a region that holds no cell of the grid changes nothing.
    pub proof fn lemma_paint_off_grid(self, region: Set<(int, int)>, color: Color)
        requires
            self.wf(),
            forall|x: int, y: int| self.contains(x, y) ==> !region.contains((x, y)),
        ensures
            self.paint(region, color) == self,
    {
        assert forall|x: int, y: int| self.contains(x, y) implies #[trigger] self.at(x, y)
            == if region.contains((x, y)) {
            color
        } else {
            self.at(x, y)
        } by {}
        self.lemma_paint_by_cells(self, region, color);
    }
}

/// A fixed-size pixel grid. Out-of-range writes are ignored and out-of-range
/// reads give white, so drawing code never has to clip.
pub struct Canvas {
    width: usize,
    height: usize,
    pixels: Vec<Color>,
}

impl View for Canvas {
    type V = Grid;

    closed spec fn view(&self) -> Grid {
        Grid { width: self.width as nat, height: self.height as nat, pixels: self.pixels@ }
    }
}

impl Canvas {
    /// Every canvas holds exactly one pixel per cell.
    #[verifier::type_invariant]
    pub open spec fn well_formed(self) -> bool {
        self@.wf()
    }

    /// A white canvas of the given dimensions.
    pub fn new(width: usize, height: usize) -> (canvas: Canvas)
        requires
            width * height <= usize::MAX,
        ensures
            canvas@ == Grid::blank(width as nat, height as nat),
            canvas@.wf(),
    {
        let pixels = vec![WHITE; width * height];
        assert forall|i: int| 0 <= i < pixels@.len() implies pixels@[i] == WHITE by {
            assert(cloned(WHITE, pixels@[i]));
        }
        assert(pixels@ =~= Grid::blank(width as nat, height as nat).pixels);
        Canvas { width, height, pixels }
    }

    /// A canvas made of a pixel buffer in row-major order. The buffer must
    /// hold exactly one pixel per cell; if it does not, the result is `None`.
    pub fn from_pixels(width: usize, height: usize, pixels: Vec<Color>) -> (made: Option<Canvas>)
        ensures
            made is Some <==> pixels@.len() == width * height,
            made matches Some(canvas) ==> canvas@ == (Grid {
                width: width as nat,
                height: height as nat,
                pixels: pixels@,
            }) && canvas@.wf(),
    {
        let given = pixels.len();
        match width.checked_mul(height) {
            Some(cells) => {
                if given == cells {
                    Some(Canvas { width, height, pixels })
                } else {
                    None
                }
            },
            None => None,
        }
    }

    /// The number of columns.
    pub fn width(&self) -> (w: usize)
        ensures
            w == self@.width,
    {
        self.width
    }

    /// The number of rows.
    pub fn height(&self) -> (h: usize)
        ensures
            h == self@.height,
    {
        self.height
    }

    /// The pixels in row-major order, row 0 first.
    pub fn pixels(&self) -> (pixels: &Vec<Color>)
        ensures
            pixels@ == self@.pixels,
    {
        &self.pixels
    }

    /// An independent copy of the canvas, for snapshots and previews.
    pub fn clone_for_preview(&self) -> (copy: Canvas)
        ensures
            copy@ == self@,
            copy@.wf(),
    {
        proof {
            use_type_invariant(self);
        }
        let pixels = self.pixels.clone();
        assert forall|i: int| 0 <= i < pixels@.len() implies pixels@[i] == self.pixels@[i] by {
            assert(cloned(self.pixels@[i], pixels@[i]));
        }
        assert(pixels@ =~= self.pixels@);
        Canvas { width: self.width, height: self.height, pixels }
    }

    /// Overwrites the pixel at `(x, y)`. Outside the canvas this does nothing.
    pub fn set_pixel(&mut self, x: usize, y: usize, color: Color)
        ensures
            final(self)@ == old(self)@.set(x as int, y as int, color),
            final(self)@.wf(),
            !old(self)@.contains(x as int, y as int) ==> final(self)@ == old(self)@,
    {
        proof {
            use_type_invariant(&*self);
        }
        if x < self.width && y < self.height {
            proof {
                self@.lemma_cell_index(x as int, y as int);
                assert(self.pixels.len() == self@.pixels.len());
            }
            self.pixels[y * self.width + x] = color;
        }
    }

    /// The color at `(x, y)`, or white outside the canvas.
    pub fn get_pixel(&self, x: usize, y: usize) -> (color: Color)
        ensures
            color == self@.at(x as int, y as int),
    {
        proof {
            use_type_invariant(self);
        }
        if x < self.width && y < self.height {
            proof {
                self@.lemma_cell_index(x as int, y as int);
                assert(self.pixels.len() == self@.pixels.len());
            }
            self.pixels[y * self.width + x]
        } else {
            WHITE
        }
    }
}

impl Clone for Canvas {
    /// A deep copy: the same picture in a pixel buffer of its own.
    fn clone(&self) -> (copy: Canvas)
        ensures
            copy@ == self@,
    {
        self.clone_for_preview()
    }
}

} // verus!
