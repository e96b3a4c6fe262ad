//! What a finished frame holds: in every cell the nearest of the samples
//! that fell into it, and of equally near samples the one drawn first.

use vstd::prelude::*;
use crate::depth::{lemma_exceeds_raises_bound, InverseDepth};
use crate::geometry::{cube_half_extent_spec, face_point_spec, in_grid, Face, FACE_COUNT};
use crate::kernel::{lemma_projection_depth_wf, project_spec, Projected, Rotation};
use crate::raster::{
    blank_spec, cell_index_spec, draw_spec, face_at, faces_spec, grid_spec,
    lemma_cell_index_bound, line_spec, plot_spec, raster_spec, Canvas, Cell,
};

verus! {

/// What a frame is drawn from: the rotation, the grid size and the half
/// extent of the cube.
pub struct Scene {
    pub r: Rotation,
    pub width: int,
    pub height: int,
    pub n: int,
}

impl Scene {
    /// The rotation is well formed and the sizes are those of a terminal.
    pub open spec fn wf(self) -> bool {
        &&& self.r.wf()
        &&& 0 <= self.width <= u16::MAX
        &&& 0 <= self.height <= u16::MAX
        &&& 0 <= self.n <= 16383
    }

    /// Where the sample of the face at position `fi` at grid position
    /// `(a, b)` lands, if anywhere.
    pub open spec fn hit(self, a: int, b: int, fi: int) -> Option<Projected> {
        project_spec(face_point_spec(face_at(fi), a, b, self.n), self.r, self.width, self.height)
    }

    /// The index of the cell of `hit`.
    pub open spec fn index_of(self, hit: Projected) -> int {
        cell_index_spec(self.width, hit.row as int, hit.col as int)
    }

    /// The canvas after the sample `(a, b, fi)` was drawn onto `c`.
    pub open spec fn draw(self, c: Canvas, a: int, b: int, fi: int) -> Canvas {
        draw_spec(c, self.width, self.height, self.r, self.n, a, b, face_at(fi))
    }
}

/// Whether the sample `(a, b, fi)` comes before the position
/// `(a_end, b_end, count)` in drawing order: grid positions are visited by
/// rising `a`, then by rising `b`, and at each the faces are drawn in order.
pub open spec fn drawn(n: int, a_end: int, b_end: int, count: int, a: int, b: int, fi: int) -> bool {
    &&& in_grid(a, n)
    &&& in_grid(b, n)
    &&& 0 <= fi < FACE_COUNT
    &&& (a < a_end || (a == a_end && (b < b_end || (b == b_end && fi < count))))
}

/// The sample `(a, b, fi)`, if it has a cell, does not exceed the depth that
/// `c` has on record for that cell.
pub open spec fn not_beaten(c: Canvas, s: Scene, a: int, b: int, fi: int) -> bool {
    match s.hit(a, b, fi) {
        Some(hit) => !hit.depth.exceeds(c.depth[s.index_of(hit)]),
        None => true,
    }
}

/// The sample `(a2, b2, fi2)` missed the cell of the sample `(a, b, fi)`, or
/// is strictly farther from the viewer.
pub open spec fn farther_or_elsewhere(
    s: Scene,
    a2: int,
    b2: int,
    fi2: int,
    a: int,
    b: int,
    fi: int,
) -> bool {
    match (s.hit(a2, b2, fi2), s.hit(a, b, fi)) {
        (Some(other), Some(hit)) => s.index_of(other) == s.index_of(hit) ==> hit.depth.exceeds(
            other.depth,
        ),
        _ => true,
    }
}

/// No sample that is drawn before `(a, b, fi)` and falls into the same cell
/// is as near as `(a, b, fi)`.
pub open spec fn first_so_near(s: Scene, a: int, b: int, fi: int) -> bool {
    forall|a2: int, b2: int, fi2: int| #[trigger]
        drawn(s.n, a, b, fi, a2, b2, fi2) ==> farther_or_elsewhere(s, a2, b2, fi2, a, b, fi)
}

/// The sample `(a, b, fi)` fell into cell `i`, `c` holds its depth and its
/// face there, and it is the first sample in drawing order that is so near
/// in that cell.
pub open spec fn owns(c: Canvas, s: Scene, a: int, b: int, fi: int, i: int) -> bool {
    match s.hit(a, b, fi) {
        Some(hit) => s.index_of(hit) == i && c.depth[i] == hit.depth && c.cells[i]
            == Cell::Filled(face_at(fi)) && first_so_near(s, a, b, fi),
        None => false,
    }
}

/// Cell `i` of `c` is blank at depth zero, or is owned by a sample that was
/// drawn before `(a_end, b_end, count)`.
pub open spec fn owned(c: Canvas, s: Scene, a_end: int, b_end: int, count: int, i: int) -> bool {
    ||| (c.cells[i] == Cell::Background && c.depth[i] == InverseDepth::baseline_spec())
    ||| exists|a: int, b: int, fi: int|
        drawn(s.n, a_end, b_end, count, a, b, fi) && #[trigger] owns(c, s, a, b, fi, i)
}

/// Cell `i` of `c` is blank at depth zero, or is filled at a depth above zero.
pub open spec fn lit(c: Canvas, i: int) -> bool {
    if c.cells[i] == Cell::Background {
        c.depth[i] == InverseDepth::baseline_spec()
    } else {
        c.depth[i].exceeds(InverseDepth::baseline_spec())
    }
}

/// `c` is what the samples before `(a_end, b_end, count)` leave behind: no
/// such sample exceeds the depth of its cell, and every cell is blank or
/// owned by such a sample, and filled only at a depth above zero.
pub open spec fn covered(c: Canvas, s: Scene, a_end: int, b_end: int, count: int) -> bool {
    &&& c.depth.len() == s.width * s.height
    &&& c.cells.len() == s.width * s.height
    &&& forall|i: int| 0 <= i < s.width * s.height ==> (#[trigger] c.depth[i]).wf()
    &&& forall|i: int| 0 <= i < s.width * s.height ==> #[trigger] lit(c, i)
    &&& forall|a: int, b: int, fi: int| #[trigger]
        drawn(s.n, a_end, b_end, count, a, b, fi) ==> not_beaten(c, s, a, b, fi)
    &&& forall|i: int|
        0 <= i < s.width * s.height ==> #[trigger] owned(c, s, a_end, b_end, count, i)
}

/// A sample of the cube that lands on the grid lands in one of its cells,
/// with a well-formed depth.
pub proof fn lemma_hit_in_canvas(s: Scene, a: int, b: int, fi: int)
    requires
        s.wf(),
        in_grid(a, s.n),
        in_grid(b, s.n),
    ensures
        s.hit(a, b, fi) matches Some(hit) ==> hit.depth.wf() && 0 <= s.index_of(hit) < s.width
            * s.height,
{
    let p = face_point_spec(face_at(fi), a, b, s.n);
    lemma_projection_depth_wf(p, s.r, s.width, s.height);
    match s.hit(a, b, fi) {
        Some(hit) => {
            lemma_cell_index_bound(s.width, s.height, hit.row as int, hit.col as int);
        },
        None => {},
    }
}

/// An offer never lowers the depth of any cell: the depths that a cell takes
/// on in the course of a frame never decrease.
pub proof fn lemma_plot_never_lowers(c: Canvas, width: int, face: Face, hit: Projected, i: int)
    requires
        0 <= i < c.depth.len(),
        0 <= cell_index_spec(width, hit.row as int, hit.col as int) < c.depth.len(),
    ensures
        !c.depth[i].exceeds(plot_spec(c, width, face, hit).depth[i]),
{
    let seen = c.depth[i];
    assert(!seen.exceeds(seen));
    assert(hit.depth.exceeds(seen) ==> !seen.exceeds(hit.depth)) by (nonlinear_arith);
}

/// A description of the samples drawn so far may be replaced by another
/// that admits the same samples.
proof fn lemma_covered_same_samples(
    c: Canvas,
    s: Scene,
    a_end: int,
    b_end: int,
    count: int,
    a_end2: int,
    b_end2: int,
    count2: int,
)
    requires
        covered(c, s, a_end, b_end, count),
        forall|a: int, b: int, fi: int|
            drawn(s.n, a_end, b_end, count, a, b, fi) == drawn(s.n, a_end2, b_end2, count2, a, b, fi),
    ensures
        covered(c, s, a_end2, b_end2, count2),
{
    assert forall|a: int, b: int, fi: int| #[trigger]
        drawn(s.n, a_end2, b_end2, count2, a, b, fi) implies not_beaten(c, s, a, b, fi) by {
        assert(drawn(s.n, a_end, b_end, count, a, b, fi));
    }
    assert forall|i: int| 0 <= i < s.width * s.height implies #[trigger] owned(
        c,
        s,
        a_end2,
        b_end2,
        count2,
        i,
    ) by {
        assert(owned(c, s, a_end, b_end, count, i));
        if !(c.cells[i] == Cell::Background && c.depth[i] == InverseDepth::baseline_spec()) {
            let (a, b, fi) = choose|a: int, b: int, fi: int|
                drawn(s.n, a_end, b_end, count, a, b, fi) && #[trigger] owns(c, s, a, b, fi, i);
            assert(drawn(s.n, a_end2, b_end2, count2, a, b, fi) && owns(c, s, a, b, fi, i));
        }
    }
}

/// Drawing the next sample keeps the canvas covered.
proof fn lemma_draw_covered(c: Canvas, s: Scene, a: int, b: int, fi: int)
    requires
        s.wf(),
        in_grid(a, s.n),
        in_grid(b, s.n),
        0 <= fi < FACE_COUNT,
        covered(c, s, a, b, fi),
    ensures
        covered(s.draw(c, a, b, fi), s, a, b, fi + 1),
{
    let after = s.draw(c, a, b, fi);
    lemma_hit_in_canvas(s, a, b, fi);
    let taken = match s.hit(a, b, fi) {
        Some(hit) => hit.depth.exceeds(c.depth[s.index_of(hit)]),
        None => false,
    };
    assert forall|i: int| 0 <= i < s.width * s.height implies (#[trigger] after.depth[i]).wf() by {
        assert(c.depth[i].wf());
    }
    assert forall|i: int| 0 <= i < s.width * s.height implies #[trigger] lit(after, i) by {
        assert(lit(c, i));
        if taken && i == s.index_of(s.hit(a, b, fi).unwrap()) {
            let hit = s.hit(a, b, fi).unwrap();
            let zero = InverseDepth::baseline_spec();
            assert(c.depth[i].wf());
            if c.depth[i] != zero {
                assert(!zero.exceeds(c.depth[i])) by (nonlinear_arith)
                    requires
                        c.depth[i].exceeds(zero),
                ;
                lemma_exceeds_raises_bound(zero, c.depth[i], hit.depth);
                assert(hit.depth.exceeds(zero)) by (nonlinear_arith)
                    requires
                        !zero.exceeds(hit.depth),
                        !zero.same_value(hit.depth),
                ;
            }
        }
    }
    assert forall|a2: int, b2: int, fi2: int| #[trigger]
        drawn(s.n, a, b, fi + 1, a2, b2, fi2) implies not_beaten(after, s, a2, b2, fi2) by {
        lemma_hit_in_canvas(s, a2, b2, fi2);
        if a2 == a && b2 == b && fi2 == fi {
        } else {
            assert(drawn(s.n, a, b, fi, a2, b2, fi2));
            assert(not_beaten(c, s, a2, b2, fi2));
            if taken {
                let hit = s.hit(a, b, fi).unwrap();
                match s.hit(a2, b2, fi2) {
                    Some(other) => {
                        if s.index_of(other) == s.index_of(hit) {
                            assert(c.depth[s.index_of(hit)].wf());
                            lemma_exceeds_raises_bound(
                                other.depth,
                                c.depth[s.index_of(hit)],
                                hit.depth,
                            );
                        }
                    },
                    None => {},
                }
            }
        }
    }
    assert forall|i: int| 0 <= i < s.width * s.height implies #[trigger] owned(
        after,
        s,
        a,
        b,
        fi + 1,
        i,
    ) by {
        if taken && i == s.index_of(s.hit(a, b, fi).unwrap()) {
            let hit = s.hit(a, b, fi).unwrap();
            assert forall|a2: int, b2: int, fi2: int| #[trigger]
                drawn(s.n, a, b, fi, a2, b2, fi2) implies farther_or_elsewhere(
                s,
                a2,
                b2,
                fi2,
                a,
                b,
                fi,
            ) by {
                lemma_hit_in_canvas(s, a2, b2, fi2);
                assert(not_beaten(c, s, a2, b2, fi2));
                match s.hit(a2, b2, fi2) {
                    Some(other) => {
                        if s.index_of(other) == i {
                            assert(c.depth[i].wf());
                            lemma_exceeds_raises_bound(other.depth, c.depth[i], hit.depth);
                            assert(hit.depth.exceeds(other.depth)) by (nonlinear_arith)
                                requires
                                    !other.depth.exceeds(hit.depth),
                                    !other.depth.same_value(hit.depth),
                            ;
                        }
                    },
                    None => {},
                }
            }
            assert(first_so_near(s, a, b, fi));
            assert(drawn(s.n, a, b, fi + 1, a, b, fi) && owns(after, s, a, b, fi, i));
        } else {
            assert(after.depth[i] == c.depth[i] && after.cells[i] == c.cells[i]);
            assert(owned(c, s, a, b, fi, i));
            if !(c.cells[i] == Cell::Background && c.depth[i] == InverseDepth::baseline_spec()) {
                let (a2, b2, fi2) = choose|a2: int, b2: int, fi2: int|
                    drawn(s.n, a, b, fi, a2, b2, fi2) && #[trigger] owns(c, s, a2, b2, fi2, i);
                assert(drawn(s.n, a, b, fi + 1, a2, b2, fi2) && owns(after, s, a2, b2, fi2, i));
            }
        }
    }
}

/// Drawing the first `count` faces at a grid position keeps the canvas covered.
proof fn lemma_faces_covered(c: Canvas, s: Scene, a: int, b: int, count: nat)
    requires
        s.wf(),
        in_grid(a, s.n),
        in_grid(b, s.n),
        count <= FACE_COUNT,
        covered(c, s, a, b, 0),
    ensures
        covered(faces_spec(c, s.width, s.height, s.r, s.n, a, b, count), s, a, b, count as int),
    decreases count,
{
    if count > 0 {
        lemma_faces_covered(c, s, a, b, (count - 1) as nat);
        let before = faces_spec(c, s.width, s.height, s.r, s.n, a, b, (count - 1) as nat);
        lemma_draw_covered(before, s, a, b, count - 1);
    }
}

/// Drawing the grid positions of one `a` up to `b_end` keeps the canvas covered.
proof fn lemma_line_covered(c: Canvas, s: Scene, a: int, b_end: int)
    requires
        s.wf(),
        in_grid(a, s.n),
        -s.n <= b_end <= s.n,
        covered(c, s, a, -s.n, 0),
    ensures
        covered(line_spec(c, s.width, s.height, s.r, s.n, a, b_end), s, a, b_end, 0),
    decreases b_end + s.n,
{
    if b_end > -s.n {
        lemma_line_covered(c, s, a, b_end - 1);
        let before = line_spec(c, s.width, s.height, s.r, s.n, a, b_end - 1);
        lemma_faces_covered(before, s, a, b_end - 1, FACE_COUNT as nat);
        let after = faces_spec(before, s.width, s.height, s.r, s.n, a, b_end - 1, FACE_COUNT as nat);
        lemma_covered_same_samples(after, s, a, b_end - 1, FACE_COUNT as int, a, b_end, 0);
    }
}

/// Drawing the grid positions up to `a_end` onto a blank canvas gives a
/// covered canvas.
proof fn lemma_grid_covered(s: Scene, a_end: int)
    requires
        s.wf(),
        -s.n <= a_end <= s.n,
    ensures
        covered(
            grid_spec(blank_spec(s.width, s.height), s.width, s.height, s.r, s.n, a_end),
            s,
            a_end,
            -s.n,
            0,
        ),
    decreases a_end + s.n,
{
    let blank = blank_spec(s.width, s.height);
    if a_end > -s.n {
        lemma_grid_covered(s, a_end - 1);
        let before = grid_spec(blank, s.width, s.height, s.r, s.n, a_end - 1);
        lemma_line_covered(before, s, a_end - 1, s.n);
        let after = line_spec(before, s.width, s.height, s.r, s.n, a_end - 1, s.n);
        lemma_covered_same_samples(after, s, a_end - 1, s.n, 0, a_end, -s.n, 0);
    } else {
        assert(s.width * s.height >= 0) by (nonlinear_arith)
            requires
                s.width >= 0,
                s.height >= 0,
        ;
        assert forall|i: int| 0 <= i < s.width * s.height implies #[trigger] owned(
            blank,
            s,
            a_end,
            -s.n,
            0,
            i,
        ) by {
            assert(blank.cells[i] == Cell::Background);
        }
        assert forall|i: int| 0 <= i < s.width * s.height implies #[trigger] lit(blank, i) by {
            assert(blank.cells[i] == Cell::Background);
            assert(blank.depth[i] == InverseDepth::baseline_spec());
        }
    }
}

/// The scene of the frame for a rotation and a grid size.
pub open spec fn scene_of(r: Rotation, width: int, height: int) -> Scene {
    Scene { r, width, height, n: cube_half_extent_spec(width, height) }
}

/// No sample of the cube is nearer than what the finished frame has on
/// record for the sample's cell: the depth of a cell is the largest inverse
/// depth of all samples that fell into it.
pub proof fn lemma_frame_keeps_nearest(r: Rotation, width: int, height: int, a: int, b: int, face: Face)
    requires
        r.wf(),
        0 <= width <= u16::MAX,
        0 <= height <= u16::MAX,
        in_grid(a, cube_half_extent_spec(width, height)),
        in_grid(b, cube_half_extent_spec(width, height)),
    ensures
        project_spec(
            face_point_spec(face, a, b, cube_half_extent_spec(width, height)),
            r,
            width,
            height,
        ) matches Some(hit) ==> !hit.depth.exceeds(
            raster_spec(r, width, height).depth[cell_index_spec(
                width,
                hit.row as int,
                hit.col as int,
            )],
        ),
{
    let s = scene_of(r, width, height);
    lemma_grid_covered(s, s.n);
    let fi = face.index_spec();
    assert(face_at(fi) == face);
    assert(drawn(s.n, s.n, -s.n, 0, a, b, fi));
    assert(not_beaten(raster_spec(r, width, height), s, a, b, fi));
}

/// Every cell of the finished frame is either blank, at depth zero, or shows
/// the face of a sample of the cube that fell into the cell, whose inverse
/// depth is the one on record, and before which no sample that near was
/// drawn into the cell.
pub proof fn lemma_frame_cell_has_owner(r: Rotation, width: int, height: int, i: int)
    requires
        r.wf(),
        0 <= width <= u16::MAX,
        0 <= height <= u16::MAX,
        0 <= i < width * height,
    ensures
        ({
            let c = raster_spec(r, width, height);
            let s = scene_of(r, width, height);
            ||| (c.cells[i] == Cell::Background && c.depth[i] == InverseDepth::baseline_spec())
            ||| exists|a: int, b: int, fi: int|
                in_grid(a, s.n) && in_grid(b, s.n) && 0 <= fi < FACE_COUNT && #[trigger] owns(
                    c,
                    s,
                    a,
                    b,
                    fi,
                    i,
                )
        }),
{
    let s = scene_of(r, width, height);
    let c = raster_spec(r, width, height);
    lemma_grid_covered(s, s.n);
    assert(owned(c, s, s.n, -s.n, 0, i));
    if !(c.cells[i] == Cell::Background && c.depth[i] == InverseDepth::baseline_spec()) {
        let (a, b, fi) = choose|a: int, b: int, fi: int|
            drawn(s.n, s.n, -s.n, 0, a, b, fi) && #[trigger] owns(c, s, a, b, fi, i);
        assert(in_grid(a, s.n) && in_grid(b, s.n) && 0 <= fi < FACE_COUNT && owns(c, s, a, b, fi, i));
    }
}

/// A cell of the finished frame is filled exactly when the inverse depth on
/// record for it is above zero; a blank cell has the depth zero on record.
pub proof fn lemma_frame_filled_cell_is_positive(r: Rotation, width: int, height: int, i: int)
    requires
        r.wf(),
        0 <= width <= u16::MAX,
        0 <= height <= u16::MAX,
        0 <= i < width * height,
    ensures
        ({
            let c = raster_spec(r, width, height);
            let zero = InverseDepth::baseline_spec();
            &&& c.cells[i] != Cell::Background <==> c.depth[i].exceeds(zero)
            &&& c.cells[i] == Cell::Background ==> c.depth[i] == zero
        }),
{
    let s = scene_of(r, width, height);
    let c = raster_spec(r, width, height);
    lemma_grid_covered(s, s.n);
    assert(lit(c, i));
}

} // verus!
