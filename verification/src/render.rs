//! Writing the colours of a frame into the frame buffer.

use crate::color::Color;
use crate::framebuffer::{lemma_cell_in_grid, lemma_one_word_per_cell, Framebuffer};
use vstd::prelude::*;

verus! {

/// The display words of a frame whose colours are given row after row.
pub open spec fn frame_words(colors: Seq<Color>) -> Seq<u32> {
    Seq::new(colors.len(), |i: int| colors[i].packed() as u32)
}

/// Draws a frame: `colors` holds the colour of every cell of the grid, row
/// after row, and each cell is drawn once, in that order, in its colour. The
/// pen is left in the colour of the last cell.
pub fn render(framebuffer: &mut Framebuffer, colors: &Vec<Color>)
    requires
        old(framebuffer).well_formed(),
        colors@.len() == old(framebuffer).columns() * old(framebuffer).rows(),
    ensures
        final(framebuffer).well_formed(),
        final(framebuffer).columns() == old(framebuffer).columns(),
        final(framebuffer).rows() == old(framebuffer).rows(),
        final(framebuffer).background() == old(framebuffer).background(),
        final(framebuffer).pixels() == frame_words(colors@),
        final(framebuffer).pen() == (if colors@.len() == 0 {
            old(framebuffer).pen()
        } else {
            colors@.last().packed() as u32
        }),
{
    let width: usize = framebuffer.width();
    let height: usize = framebuffer.height();
    let ghost size: int = width * height;
    let count: usize = colors.len();
    proof {
        lemma_one_word_per_cell(*framebuffer);
    }
    let mut y: usize = 0;
    while y < height
        invariant
            y <= height,
            framebuffer.well_formed(),
            framebuffer.columns() == width,
            framebuffer.rows() == height,
            framebuffer.background() == old(framebuffer).background(),
            colors@.len() == size,
            size == width * height,
            size == count,
            framebuffer.pixels().len() == size,
            0 <= y * width <= size,
            forall|i: int| 0 <= i < y * width ==> framebuffer.pixels()[i] == colors@[i].packed(),
            framebuffer.pen() == (if y * width == 0 {
                old(framebuffer).pen()
            } else {
                colors@[y * width - 1].packed() as u32
            }),
        decreases height - y,
    {
        let mut x: usize = 0;
        while x < width
            invariant
                x <= width,
                y < height,
                framebuffer.well_formed(),
                framebuffer.columns() == width,
                framebuffer.rows() == height,
                framebuffer.background() == old(framebuffer).background(),
                colors@.len() == size,
                size == width * height,
                size == count,
                framebuffer.pixels().len() == size,
                0 <= y * width,
                y * width + x <= size,
                forall|i: int|
                    0 <= i < y * width + x ==> framebuffer.pixels()[i] == colors@[i].packed(),
                framebuffer.pen() == (if y * width + x == 0 {
                    old(framebuffer).pen()
                } else {
                    colors@[y * width + x - 1].packed() as u32
                }),
            decreases width - x,
        {
            proof {
                lemma_cell_in_grid(x as int, y as int, width as int, height as int);
            }
            let index: usize = y * width + x;
            let word: u32 = colors[index].to_hex();
            framebuffer.set_current_color(word);
            framebuffer.point(x, y);
            x += 1;
        }
        proof {
            assert((y + 1) * width == y * width + width) by (nonlinear_arith);
        }
        y += 1;
    }
    proof {
        assert(y * width == size) by (nonlinear_arith)
            requires
                y == height,
                size == width * height,
        ;
        assert(framebuffer.pixels() =~= frame_words(colors@));
    }
}

} // verus!
