//! A frame as the bytes that a terminal expects.

use vstd::prelude::*;
use crate::arith::lemma_mul_bound;
use crate::kernel::Rotation;
use crate::raster::{raster_spec, rasterize, Cell, FrameBuffers};

verus! {

/// The escape character.
pub const ESC: u8 = 0x1b;

/// The filler of a cell into which nothing was drawn: a space.
pub const BACKGROUND: u8 = 0x20;

/// The end of a line.
pub const NEWLINE: u8 = 0x0a;

/// The text of one cell: a space for the background; for a face its glyph
/// between the sequence that selects the face's colour, `ESC [ 3 d m`, and
/// the sequence that resets it, `ESC [ 0 m`.
pub open spec fn cell_text(c: Cell) -> Seq<u8> {
    match c {
        Cell::Background => seq![BACKGROUND],
        Cell::Filled(face) => seq![
            ESC,
            0x5bu8,
            0x33u8,
            (0x31 + face.index_spec()) as u8,
            0x6du8,
            face.glyph_spec(),
            ESC,
            0x5bu8,
            0x30u8,
            0x6du8,
        ],
    }
}

/// The texts of `cells`, one after the other.
pub open spec fn cells_text(cells: Seq<Cell>) -> Seq<u8>
    decreases cells.len(),
{
    if cells.len() == 0 {
        Seq::empty()
    } else {
        cells_text(cells.drop_last()) + cell_text(cells.last())
    }
}

/// The text of the first `count` rows of a grid of width `width`: the cells
/// of each row, followed by a newline.
pub open spec fn rows_text(cells: Seq<Cell>, width: int, count: nat) -> Seq<u8>
    decreases count,
{
    if count == 0 {
        Seq::empty()
    } else {
        rows_text(cells, width, (count - 1) as nat) + cells_text(
            cells.subrange((count - 1) * width, count * width),
        ) + seq![NEWLINE]
    }
}

/// The sequence that ends a frame: `ESC [ H`, which moves the cursor home,
/// so that the next frame is written over this one.
pub open spec fn home_text() -> Seq<u8> {
    seq![ESC, 0x5bu8, 0x48u8]
}

/// The text of a whole frame: its rows from top to bottom, then the sequence
/// that moves the cursor home.
pub open spec fn frame_text(cells: Seq<Cell>, width: int, height: int) -> Seq<u8> {
    rows_text(cells, width, height as nat) + home_text()
}

/// The sequence that starts the display: `ESC [ 2 J`, which clears the
/// screen, and `ESC [ H`, which moves the cursor home, where the first frame
/// and every later one begin.
pub open spec fn clear_text() -> Seq<u8> {
    seq![ESC, 0x5bu8, 0x32u8, 0x4au8, ESC, 0x5bu8, 0x48u8]
}

/// Appends the text of `c` to `out`.
pub fn push_cell(out: &mut Vec<u8>, c: Cell)
    ensures
        final(out)@ == old(out)@ + cell_text(c),
{
    let ghost before = out@;
    match c {
        Cell::Background => {
            out.push(BACKGROUND);
        },
        Cell::Filled(face) => {
            out.push(ESC);
            out.push(0x5b);
            out.push(0x33);
            out.push(face.color_digit());
            out.push(0x6d);
            out.push(face.glyph());
            out.push(ESC);
            out.push(0x5b);
            out.push(0x30);
            out.push(0x6d);
        },
    }
    assert(out@ =~= before + cell_text(c));
}

/// The bytes that clear the screen before the first frame.
pub fn clear_screen() -> (out: Vec<u8>)
    ensures
        out@ == clear_text(),
{
    let mut out: Vec<u8> = Vec::new();
    out.push(ESC);
    out.push(0x5b);
    out.push(0x32);
    out.push(0x4a);
    out.push(ESC);
    out.push(0x5b);
    out.push(0x48);
    assert(out@ =~= clear_text());
    out
}

/// The frame held in `fb` as text.
pub fn render(fb: &FrameBuffers) -> (out: Vec<u8>)
    requires
        fb.wf(),
    ensures
        out@ == frame_text(fb@.cells, fb.width as int, fb.height as int),
{
    let width: usize = fb.width as usize;
    let mut out: Vec<u8> = Vec::new();
    let mut row: u16 = 0;
    let mut base: usize = 0;
    while row < fb.height
        invariant
            fb.wf(),
            width == fb.width,
            row <= fb.height,
            base == row * width,
            out@ == rows_text(fb@.cells, width as int, row as nat),
        decreases fb.height - row,
    {
        let ghost before = out@;
        proof {
            assert(base + width == (row + 1) * width) by (nonlinear_arith)
                requires
                    base == row * width,
            ;
            assert((row + 1) * width <= fb.height * width) by (nonlinear_arith)
                requires
                    row + 1 <= fb.height,
                    width >= 0,
            ;
            assert(fb.height * width == fb.width * fb.height) by (nonlinear_arith)
                requires
                    width == fb.width,
            ;
            lemma_mul_bound(fb.width as int, fb.height as int, 65535, 65535);
        }
        let mut col: usize = 0;
        while col < width
            invariant
                fb.wf(),
                width == fb.width,
                col <= width,
                base + width <= fb.cells@.len(),
                base + width <= 65535 * 65535,
                out@ == before + cells_text(fb@.cells.subrange(base as int, base + col)),
            decreases width - col,
        {
            let c = fb.cells[base + col];
            proof {
                let upto = fb@.cells.subrange(base as int, base + col + 1);
                assert(upto.drop_last() =~= fb@.cells.subrange(base as int, base + col));
                assert(upto.last() == c);
            }
            push_cell(&mut out, c);
            col = col + 1;
        }
        out.push(NEWLINE);
        assert(out@ =~= before + cells_text(fb@.cells.subrange(base as int, base + width))
            + seq![NEWLINE]);
        base = base + width;
        row = row + 1;
    }
    out.push(ESC);
    out.push(0x5b);
    out.push(0x48);
    assert(out@ =~= rows_text(fb@.cells, width as int, fb.height as nat) + home_text());
    out
}

/// The text of the frame for a rotation and a grid size.
pub open spec fn render_frame_spec(r: Rotation, width: int, height: int) -> Seq<u8> {
    frame_text(raster_spec(r, width, height).cells, width, height)
}

/// Draws the cube turned by `r` for a grid of `width` by `height` cells and
/// returns the frame as text. Equal arguments give equal bytes: nothing is
/// carried over from one frame to the next.
pub fn render_frame(r: &Rotation, width: u16, height: u16) -> (out: Vec<u8>)
    requires
        r.wf(),
    ensures
        out@ == render_frame_spec(*r, width as int, height as int),
{
    let fb = rasterize(r, width, height);
    render(&fb)
}

} // verus!
