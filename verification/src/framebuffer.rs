//! The frame buffer: a grid of display words in row-major order.

use crate::color::Color;
use vstd::prelude::*;

verus! {

/// A grid of `width` by `height` display words, row after row, with the
/// colour that the next point is drawn in and the colour that clearing
/// leaves behind.
pub struct Framebuffer {
    width: usize,
    height: usize,
    buffer: Vec<u32>,
    background_color: u32,
    current_color: u32,
}

impl Framebuffer {
    /// There are as many display words as the grid has cells.
    pub closed spec fn well_formed(self) -> bool {
        self.buffer@.len() == self.width * self.height
    }

    /// The width of the grid.
    pub closed spec fn columns(self) -> nat {
        self.width as nat
    }

    /// The height of the grid.
    pub closed spec fn rows(self) -> nat {
        self.height as nat
    }

    /// The display words, row after row.
    pub closed spec fn pixels(self) -> Seq<u32> {
        self.buffer@
    }

    /// The colour in which the next point is drawn.
    pub closed spec fn pen(self) -> u32 {
        self.current_color
    }

    /// The colour that clearing leaves behind.
    pub closed spec fn background(self) -> u32 {
        self.background_color
    }

    /// A grid of black display words, with a black background and a white pen.
    pub fn new(width: usize, height: usize) -> (fb: Framebuffer)
        requires
            width * height <= usize::MAX,
        ensures
            fb.well_formed(),
            fb.columns() == width,
            fb.rows() == height,
            fb.pixels() == Seq::new((width * height) as nat, |i: int| 0u32),
            fb.background() == 0,
            fb.pen() == 0xff_ffff,
    {
        let size: usize = width * height;
        let mut buffer: Vec<u32> = Vec::new();
        let mut k: usize = 0;
        while k < size
            invariant
                k <= size,
                buffer@ == Seq::new(k as nat, |i: int| 0u32),
            decreases size - k,
        {
            buffer.push(0);
            k += 1;
        }
        Framebuffer { width, height, buffer, background_color: 0, current_color: 0xff_ffff }
    }

    pub fn width(&self) -> (w: usize)
        ensures
            w == self.columns(),
    {
        self.width
    }

    pub fn height(&self) -> (h: usize)
        ensures
            h == self.rows(),
    {
        self.height
    }

    /// The display words, row after row.
    pub fn buffer(&self) -> (words: &Vec<u32>)
        ensures
            words@ == self.pixels(),
            self.well_formed() ==> words@.len() == self.columns() * self.rows(),
    {
        &self.buffer
    }

    pub fn set_background_color(&mut self, color: u32)
        requires
            old(self).well_formed(),
        ensures
            final(self).well_formed(),
            final(self).background() == color,
            final(self).pen() == old(self).pen(),
            final(self).pixels() == old(self).pixels(),
            final(self).columns() == old(self).columns(),
            final(self).rows() == old(self).rows(),
    {
        self.background_color = color;
    }

    pub fn set_current_color(&mut self, color: u32)
        requires
            old(self).well_formed(),
        ensures
            final(self).well_formed(),
            final(self).pen() == color,
            final(self).background() == old(self).background(),
            final(self).pixels() == old(self).pixels(),
            final(self).columns() == old(self).columns(),
            final(self).rows() == old(self).rows(),
    {
        self.current_color = color;
    }

    /// Fills the grid with the background colour.
    pub fn clear(&mut self)
        requires
            old(self).well_formed(),
        ensures
            final(self).well_formed(),
            final(self).pixels() == Seq::new(
                old(self).pixels().len(),
                |i: int| old(self).background(),
            ),
            final(self).background() == old(self).background(),
            final(self).pen() == old(self).pen(),
            final(self).columns() == old(self).columns(),
            final(self).rows() == old(self).rows(),
    {
        let size: usize = self.buffer.len();
        let color: u32 = self.background_color;
        let mut buffer: Vec<u32> = Vec::new();
        let mut k: usize = 0;
        while k < size
            invariant
                k <= size,
                buffer@ == Seq::new(k as nat, |i: int| color),
            decreases size - k,
        {
            buffer.push(color);
            k += 1;
        }
        self.buffer = buffer;
    }

    /// Draws the cell of column `x` and row `y` in the pen's colour. A point
    /// outside the grid changes nothing.
    pub fn point(&mut self, x: usize, y: usize)
        requires
            old(self).well_formed(),
        ensures
            final(self).well_formed(),
            final(self).pixels() == (if x < old(self).columns() && y < old(self).rows() {
                old(self).pixels().update(y * old(self).columns() + x, old(self).pen())
            } else {
                old(self).pixels()
            }),
            final(self).background() == old(self).background(),
            final(self).pen() == old(self).pen(),
            final(self).columns() == old(self).columns(),
            final(self).rows() == old(self).rows(),
    {
        if x < self.width && y < self.height {
            let size: usize = self.buffer.len();
            proof {
                lemma_cell_in_grid(x as int, y as int, self.width as int, self.height as int);
                assert(y * self.width + x < size);
            }
            let index: usize = y * self.width + x;
            let color: u32 = self.current_color;
            self.buffer.set(index, color);
        }
    }
}

/// A well-formed frame buffer has one display word for each cell of its grid.
pub proof fn lemma_one_word_per_cell(framebuffer: Framebuffer)
    requires
        framebuffer.well_formed(),
    ensures
        framebuffer.pixels().len() == framebuffer.columns() * framebuffer.rows(),
{
}

/// The cell of column `x` and row `y` has a place among the display words.
pub proof fn lemma_cell_in_grid(x: int, y: int, width: int, height: int)
    requires
        0 <= x < width,
        0 <= y < height,
    ensures
        0 <= y * width <= y * width + x < width * height,
        y * width + x < (y + 1) * width,
{
    assert(y * width + x < width * height && y * width >= 0 && (y + 1) * width == y * width + width)
        by (nonlinear_arith)
        requires
            0 <= x < width,
            0 <= y < height,
    ;
}

} // verus!
