//! The depth buffer and the cell buffer, and the drawing of a whole frame.
//!
//! Both buffers are stored row by row: the cell in row `r` and column `c` of
//! a grid of width `w` has the index `r * w + c`.

use vstd::prelude::*;
use crate::arith::lemma_mul_bound;
use crate::depth::InverseDepth;
use crate::geometry::{cube_half_extent, cube_half_extent_spec, face_point, face_point_spec, Face, FACE_COUNT};
use crate::kernel::{project, project_spec, Projected, Rotation};

verus! {

/// What a cell of the grid shows.
#[derive(Clone, Copy, Debug, PartialEq, Eq, Structural)]
pub enum Cell {
    /// Nothing was drawn into the cell.
    Background,
    /// The nearest sample that fell into the cell belongs to this face.
    Filled(Face),
}

/// The two buffers as mathematical sequences.
pub struct Canvas {
    pub depth: Seq<InverseDepth>,
    pub cells: Seq<Cell>,
}

/// The depth buffer and the cell buffer of one frame.
pub struct FrameBuffers {
    pub width: u16,
    pub height: u16,
    pub depth: Vec<InverseDepth>,
    pub cells: Vec<Cell>,
}

/// The index of the cell in row `row` and column `col` of a grid of width `width`.
pub open spec fn cell_index_spec(width: int, row: int, col: int) -> int {
    row * width + col
}

/// The canvas of `width * height` cells into which nothing was drawn.
pub open spec fn blank_spec(width: int, height: int) -> Canvas {
    Canvas {
        depth: Seq::new((width * height) as nat, |i: int| InverseDepth::baseline_spec()),
        cells: Seq::new((width * height) as nat, |i: int| Cell::Background),
    }
}

/// The canvas after a sample of `face` that landed at `hit` was offered to
/// it: the sample takes the cell if its inverse depth strictly exceeds the
/// one on record, and otherwise changes nothing.
pub open spec fn plot_spec(canvas: Canvas, width: int, face: Face, hit: Projected) -> Canvas {
    let i = cell_index_spec(width, hit.row as int, hit.col as int);
    if hit.depth.exceeds(canvas.depth[i]) {
        Canvas {
            depth: canvas.depth.update(i, hit.depth),
            cells: canvas.cells.update(i, Cell::Filled(face)),
        }
    } else {
        canvas
    }
}

/// The canvas after the sample of `face` at grid position `(a, b)` was
/// projected and, if it has a cell, offered to the canvas.
pub open spec fn draw_spec(
    canvas: Canvas,
    width: int,
    height: int,
    r: Rotation,
    n: int,
    a: int,
    b: int,
    face: Face,
) -> Canvas {
    match project_spec(face_point_spec(face, a, b, n), r, width, height) {
        Some(hit) => plot_spec(canvas, width, face, hit),
        None => canvas,
    }
}

/// The face at position `i` of the drawing order.
pub open spec fn face_at(i: int) -> Face {
    if i == 0 {
        Face::Front
    } else if i == 1 {
        Face::Right
    } else if i == 2 {
        Face::Left
    } else if i == 3 {
        Face::Back
    } else if i == 4 {
        Face::Top
    } else {
        Face::Bottom
    }
}

/// The canvas after the first `count` faces were drawn at grid position `(a, b)`.
pub open spec fn faces_spec(
    canvas: Canvas,
    width: int,
    height: int,
    r: Rotation,
    n: int,
    a: int,
    b: int,
    count: nat,
) -> Canvas
    decreases count,
{
    if count == 0 {
        canvas
    } else {
        draw_spec(
            faces_spec(canvas, width, height, r, n, a, b, (count - 1) as nat),
            width,
            height,
            r,
            n,
            a,
            b,
            face_at(count - 1),
        )
    }
}

/// The canvas after all faces were drawn at the grid positions `(a, b)` with
/// `-n <= b < b_end`.
pub open spec fn line_spec(
    canvas: Canvas,
    width: int,
    height: int,
    r: Rotation,
    n: int,
    a: int,
    b_end: int,
) -> Canvas
    decreases b_end + n,
{
    if b_end <= -n {
        canvas
    } else {
        faces_spec(
            line_spec(canvas, width, height, r, n, a, b_end - 1),
            width,
            height,
            r,
            n,
            a,
            b_end - 1,
            FACE_COUNT as nat,
        )
    }
}

/// The canvas after all faces were drawn at the grid positions `(a, b)` with
/// `-n <= a < a_end` and `-n <= b < n`.
pub open spec fn grid_spec(
    canvas: Canvas,
    width: int,
    height: int,
    r: Rotation,
    n: int,
    a_end: int,
) -> Canvas
    decreases a_end + n,
{
    if a_end <= -n {
        canvas
    } else {
        line_spec(
            grid_spec(canvas, width, height, r, n, a_end - 1),
            width,
            height,
            r,
            n,
            a_end - 1,
            n,
        )
    }
}

/// The frame for a rotation and a grid size: every sample of every face of
/// the cube that suits the grid, drawn onto a blank canvas.
pub open spec fn raster_spec(r: Rotation, width: int, height: int) -> Canvas {
    let n = cube_half_extent_spec(width, height);
    grid_spec(blank_spec(width, height), width, height, r, n, n)
}

/// `row * width + col` stays below `width * height`.
pub proof fn lemma_cell_index_bound(width: int, height: int, row: int, col: int)
    requires
        0 <= row < height,
        0 <= col < width,
    ensures
        0 <= cell_index_spec(width, row, col) < width * height,
{
    assert(0 <= row * width + col < width * height) by (nonlinear_arith)
        requires
            0 <= row < height,
            0 <= col < width,
    ;
}

impl FrameBuffers {
    /// Both buffers hold one entry for every cell, and every depth is well formed.
    pub open spec fn wf(self) -> bool {
        &&& self.depth@.len() == self.width * self.height
        &&& self.cells@.len() == self.width * self.height
        &&& forall|i: int| 0 <= i < self.depth@.len() ==> (#[trigger] self.depth@[i]).wf()
    }

    /// The buffers as sequences.
    pub open spec fn view(self) -> Canvas {
        Canvas { depth: self.depth@, cells: self.cells@ }
    }

    /// Fresh buffers for a grid of `width` by `height` cells: every depth is
    /// zero and every cell shows the background.
    pub fn new(width: u16, height: u16) -> (fb: FrameBuffers)
        ensures
            fb.wf(),
            fb.width == width,
            fb.height == height,
            fb@ == blank_spec(width as int, height as int),
    {
        proof {
            lemma_mul_bound(width as int, height as int, 65535, 65535);
        }
        let total: usize = (width as usize) * (height as usize);
        let mut depth: Vec<InverseDepth> = Vec::new();
        let mut cells: Vec<Cell> = Vec::new();
        let mut i: usize = 0;
        while i < total
            invariant
                i <= total,
                depth@.len() == i,
                cells@.len() == i,
                forall|k: int| 0 <= k < i ==> depth@[k] == InverseDepth::baseline_spec(),
                forall|k: int| 0 <= k < i ==> cells@[k] == Cell::Background,
            decreases total - i,
        {
            depth.push(InverseDepth::baseline());
            cells.push(Cell::Background);
            i = i + 1;
        }
        let fb = FrameBuffers { width, height, depth, cells };
        assert(fb@.depth =~= blank_spec(width as int, height as int).depth);
        assert(fb@.cells =~= blank_spec(width as int, height as int).cells);
        fb
    }

    /// Offers a sample of `face` that landed at `hit` to the buffers. The
    /// sample takes the cell if it is strictly nearer than what the cell
    /// holds; of two equally near samples the earlier one stays.
    pub fn plot(&mut self, face: Face, hit: Projected)
        requires
            old(self).wf(),
            hit.col < old(self).width,
            hit.row < old(self).height,
            hit.depth.wf(),
        ensures
            final(self).wf(),
            final(self).width == old(self).width,
            final(self).height == old(self).height,
            final(self)@ == plot_spec(old(self)@, old(self).width as int, face, hit),
    {
        proof {
            lemma_cell_index_bound(
                self.width as int,
                self.height as int,
                hit.row as int,
                hit.col as int,
            );
            lemma_mul_bound(hit.row as int, self.width as int, 65535, 65535);
        }
        let i: usize = (hit.row as usize) * (self.width as usize) + (hit.col as usize);
        let seen = self.depth[i];
        if hit.depth.is_nearer_than(&seen) {
            self.depth[i] = hit.depth;
            self.cells[i] = Cell::Filled(face);
        }
    }

    /// Projects the sample of `face` at grid position `(a, b)` and offers it
    /// to the buffers; a sample that falls outside the grid changes nothing.
    pub fn draw(&mut self, r: &Rotation, n: i16, a: i16, b: i16, face: Face)
        requires
            old(self).wf(),
            r.wf(),
            -n <= a < n,
            -n <= b < n,
        ensures
            final(self).wf(),
            final(self).width == old(self).width,
            final(self).height == old(self).height,
            final(self)@ == draw_spec(
                old(self)@,
                old(self).width as int,
                old(self).height as int,
                *r,
                n as int,
                a as int,
                b as int,
                face,
            ),
    {
        let p = face_point(face, a, b, n);
        match project(p, r, self.width, self.height) {
            Some(hit) => self.plot(face, hit),
            None => {},
        }
    }

    /// What the cell in row `row` and column `col` shows.
    pub fn cell(&self, row: u16, col: u16) -> (c: Cell)
        requires
            self.wf(),
            row < self.height,
            col < self.width,
        ensures
            c == self@.cells[cell_index_spec(self.width as int, row as int, col as int)],
    {
        proof {
            lemma_cell_index_bound(self.width as int, self.height as int, row as int, col as int);
            lemma_mul_bound(row as int, self.width as int, 65535, 65535);
        }
        self.cells[(row as usize) * (self.width as usize) + (col as usize)]
    }

    /// The inverse depth on record for the cell in row `row` and column `col`.
    pub fn depth_at(&self, row: u16, col: u16) -> (d: InverseDepth)
        requires
            self.wf(),
            row < self.height,
            col < self.width,
        ensures
            d == self@.depth[cell_index_spec(self.width as int, row as int, col as int)],
            d.wf(),
    {
        proof {
            lemma_cell_index_bound(self.width as int, self.height as int, row as int, col as int);
            lemma_mul_bound(row as int, self.width as int, 65535, 65535);
        }
        self.depth[(row as usize) * (self.width as usize) + (col as usize)]
    }
}

/// Draws one frame: the cube that suits a grid of `width` by `height` cells,
/// turned by `r`, onto fresh buffers. The result depends on nothing but the
/// three arguments.
pub fn rasterize(r: &Rotation, width: u16, height: u16) -> (fb: FrameBuffers)
    requires
        r.wf(),
    ensures
        fb.wf(),
        fb.width == width,
        fb.height == height,
        fb@ == raster_spec(*r, width as int, height as int),
{
    let n = cube_half_extent(width, height);
    let mut fb = FrameBuffers::new(width, height);
    let ghost blank = fb@;
    let mut a: i16 = -n;
    while a < n
        invariant
            0 <= n <= 16383,
            -n <= a <= n,
            r.wf(),
            fb.wf(),
            fb.width == width,
            fb.height == height,
            fb@ == grid_spec(blank, width as int, height as int, *r, n as int, a as int),
        decreases n - a,
    {
        let ghost before_line = fb@;
        let mut b: i16 = -n;
        while b < n
            invariant
                0 <= n <= 16383,
                -n <= a < n,
                -n <= b <= n,
                r.wf(),
                fb.wf(),
                fb.width == width,
                fb.height == height,
                fb@ == line_spec(
                    before_line,
                    width as int,
                    height as int,
                    *r,
                    n as int,
                    a as int,
                    b as int,
                ),
            decreases n - b,
        {
            let ghost before_faces = fb@;
            let mut f: u8 = 0;
            while f < FACE_COUNT
                invariant
                    -n <= a < n,
                    -n <= b < n,
                    f <= FACE_COUNT,
                    r.wf(),
                    fb.wf(),
                    fb.width == width,
                    fb.height == height,
                    fb@ == faces_spec(
                        before_faces,
                        width as int,
                        height as int,
                        *r,
                        n as int,
                        a as int,
                        b as int,
                        f as nat,
                    ),
                decreases FACE_COUNT - f,
            {
                match Face::from_index(f) {
                    Some(face) => {
                        assert(face == face_at(f as int));
                        fb.draw(r, n, a, b, face);
                    },
                    None => {},
                }
                f = f + 1;
            }
            b = b + 1;
        }
        a = a + 1;
    }
    fb
}

} // verus!
