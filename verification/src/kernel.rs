//! Rotation about the three axes and perspective projection onto the grid.
//!
//! Sines and cosines are fixed-point numbers with 16 fractional bits. A
//! rotation multiplies every coordinate by one such factor, so a point that
//! went through the three rotations is scaled by two to the power 48. The
//! projection divides once, at the very end, and is therefore exact: the
//! results are those of arithmetic on fractions, with no rounding but the
//! one that picks the cell, and not those of floating-point arithmetic.

use vstd::prelude::*;
use crate::arith::lemma_mul_bound;
use crate::depth::{InverseDepth, DEPTH_UNIT};
use crate::geometry::Point3;

verus! {

/// The fixed-point representation of one.
pub const TRIG_ONE: i32 = 65536;

/// The distance from the viewer to the centre of the cube.
pub const CUBE_DISTANCE: i128 = 60;

/// The distance from the viewer to the screen.
pub const SCREEN_DISTANCE: i128 = 40;

/// The sines and cosines of the three rotation angles, in fixed point.
#[derive(Clone, Copy, Debug, PartialEq, Eq, Structural)]
pub struct Rotation {
    pub sin_x: i32,
    pub cos_x: i32,
    pub sin_y: i32,
    pub cos_y: i32,
    pub sin_z: i32,
    pub cos_z: i32,
}

/// Whether `v` lies between minus one and one in fixed point.
pub open spec fn is_trig_value(v: int) -> bool {
    -TRIG_ONE <= v <= TRIG_ONE
}

/// A rotation in a plane: `(u, v)` turned by the angle with sine `s` and
/// cosine `c`, scaled by `TRIG_ONE`.
pub open spec fn turn_spec(u: int, v: int, s: int, c: int) -> (int, int) {
    (u * c - v * s, u * s + v * c)
}

/// `p` after the rotation about the x axis, then about the y axis, then
/// about the z axis, scaled by the cube of `TRIG_ONE`.
pub open spec fn rotated_spec(p: (int, int, int), r: Rotation) -> (int, int, int) {
    let (y1, z1) = turn_spec(p.1, p.2, r.sin_x as int, r.cos_x as int);
    let x1 = p.0 * TRIG_ONE;
    let (z2, x2) = turn_spec(z1, x1, r.sin_y as int, r.cos_y as int);
    let y2 = y1 * TRIG_ONE;
    let (x3, y3) = turn_spec(x2, y2, r.sin_z as int, r.cos_z as int);
    let z3 = z2 * TRIG_ONE;
    (x3, y3, z3)
}

/// The quotient `n / d` rounded towards zero, for a positive `d`.
pub open spec fn trunc_quot(n: int, d: int) -> int {
    if n >= 0 {
        n / d
    } else {
        -((-n) / d)
    }
}

/// Where a sample lands: a cell of the grid and the sample's inverse depth.
#[derive(Clone, Copy, Debug, PartialEq, Eq, Structural)]
pub struct Projected {
    pub col: u16,
    pub row: u16,
    pub depth: InverseDepth,
}

/// The projection of `p` under `r` onto a grid of `width` by `height` cells,
/// or `None` where the sample has no cell.
///
/// With `(x, y, z)` the rotated point, the inverse depth is
/// `1 / (CUBE_DISTANCE + z)`, the column is
/// `width / 2 + 2 * SCREEN_DISTANCE * x / (CUBE_DISTANCE + z)` and the row is
/// `height / 2 + SCREEN_DISTANCE * y / (CUBE_DISTANCE + z)`, both rounded
/// towards zero. A sample whose column or row falls outside the grid has no
/// cell, nor has one in the plane of the viewer, where the divisor is zero.
pub open spec fn project_spec(p: (int, int, int), r: Rotation, width: int, height: int) -> Option<
    Projected,
> {
    let q = rotated_spec(p, r);
    let raw = CUBE_DISTANCE * DEPTH_UNIT + q.2;
    if raw == 0 {
        None
    } else {
        let sign: int = if raw > 0 { 1 } else { -1 };
        let den = sign * raw;
        let col = trunc_quot(sign * (width * raw + 4 * SCREEN_DISTANCE * q.0), 2 * den);
        let row = trunc_quot(sign * (height * raw + 2 * SCREEN_DISTANCE * q.1), 2 * den);
        if 0 <= col < width && 0 <= row < height {
            Some(
                Projected {
                    col: col as u16,
                    row: row as u16,
                    depth: InverseDepth { num: (sign * DEPTH_UNIT) as i128, den: den as i128 },
                },
            )
        } else {
            None
        }
    }
}

impl Rotation {
    /// Every sine and cosine lies between minus one and one.
    pub open spec fn wf(self) -> bool {
        &&& is_trig_value(self.sin_x as int)
        &&& is_trig_value(self.cos_x as int)
        &&& is_trig_value(self.sin_y as int)
        &&& is_trig_value(self.cos_y as int)
        &&& is_trig_value(self.sin_z as int)
        &&& is_trig_value(self.cos_z as int)
    }

    /// The rotation by the angle zero about every axis.
    pub open spec fn identity_spec() -> Rotation {
        Rotation {
            sin_x: 0,
            cos_x: TRIG_ONE,
            sin_y: 0,
            cos_y: TRIG_ONE,
            sin_z: 0,
            cos_z: TRIG_ONE,
        }
    }

    /// The rotation by the angle zero about every axis.
    pub fn identity() -> (r: Rotation)
        ensures
            r == Self::identity_spec(),
            r.wf(),
    {
        Rotation {
            sin_x: 0,
            cos_x: TRIG_ONE,
            sin_y: 0,
            cos_y: TRIG_ONE,
            sin_z: 0,
            cos_z: TRIG_ONE,
        }
    }

    /// The rotation with the given sines and cosines, provided that each of
    /// them lies between minus one and one.
    pub fn new(sin_x: i32, cos_x: i32, sin_y: i32, cos_y: i32, sin_z: i32, cos_z: i32) -> (r:
        Option<Rotation>)
        ensures
            r.is_some() <==> (Rotation { sin_x, cos_x, sin_y, cos_y, sin_z, cos_z }).wf(),
            r.is_some() ==> r.unwrap() == (Rotation { sin_x, cos_x, sin_y, cos_y, sin_z, cos_z }),
    {
        if in_unit_range(sin_x) && in_unit_range(cos_x) && in_unit_range(sin_y) && in_unit_range(
            cos_y,
        ) && in_unit_range(sin_z) && in_unit_range(cos_z) {
            Some(Rotation { sin_x, cos_x, sin_y, cos_y, sin_z, cos_z })
        } else {
            None
        }
    }
}

/// Whether `v` lies between minus one and one in fixed point.
pub fn in_unit_range(v: i32) -> (b: bool)
    ensures
        b == is_trig_value(v as int),
{
    -TRIG_ONE <= v && v <= TRIG_ONE
}

/// The largest magnitude of a coordinate that `turn` accepts (two to the power 49).
pub const TURN_LIMIT: i128 = 562949953421312;

/// A turn at most doubles the magnitude of a coordinate, apart from the scale.
pub proof fn lemma_turn_bound(u: int, v: int, s: int, c: int, bound: int)
    requires
        0 <= bound,
        -bound <= u <= bound,
        -bound <= v <= bound,
        is_trig_value(s),
        is_trig_value(c),
    ensures
        -2 * (bound * TRIG_ONE) <= turn_spec(u, v, s, c).0 <= 2 * (bound * TRIG_ONE),
        -2 * (bound * TRIG_ONE) <= turn_spec(u, v, s, c).1 <= 2 * (bound * TRIG_ONE),
        -(bound * TRIG_ONE) <= u * c <= bound * TRIG_ONE,
        -(bound * TRIG_ONE) <= v * s <= bound * TRIG_ONE,
        -(bound * TRIG_ONE) <= u * s <= bound * TRIG_ONE,
        -(bound * TRIG_ONE) <= v * c <= bound * TRIG_ONE,
{
    lemma_mul_bound(u, c, bound, TRIG_ONE as int);
    lemma_mul_bound(v, s, bound, TRIG_ONE as int);
    lemma_mul_bound(u, s, bound, TRIG_ONE as int);
    lemma_mul_bound(v, c, bound, TRIG_ONE as int);
}

/// Every coordinate of a rotated point is at most `ROTATED_LIMIT` in magnitude.
pub proof fn lemma_rotated_bound(p: (int, int, int), r: Rotation)
    requires
        r.wf(),
        -32768 <= p.0 <= 32768,
        -32768 <= p.1 <= 32768,
        -32768 <= p.2 <= 32768,
    ensures
        -ROTATED_LIMIT <= rotated_spec(p, r).0 <= ROTATED_LIMIT,
        -ROTATED_LIMIT <= rotated_spec(p, r).1 <= ROTATED_LIMIT,
        -ROTATED_LIMIT <= rotated_spec(p, r).2 <= ROTATED_LIMIT,
{
    lemma_turn_bound(p.1, p.2, r.sin_x as int, r.cos_x as int, 32768);
    let (y1, z1) = turn_spec(p.1, p.2, r.sin_x as int, r.cos_x as int);
    let x1 = p.0 * TRIG_ONE;
    lemma_turn_bound(z1, x1, r.sin_y as int, r.cos_y as int, 4294967296);
    let (z2, x2) = turn_spec(z1, x1, r.sin_y as int, r.cos_y as int);
    let y2 = y1 * TRIG_ONE;
    lemma_turn_bound(x2, y2, r.sin_z as int, r.cos_z as int, 562949953421312);
}

/// `(u, v)` turned in its plane by the angle with sine `s` and cosine `c`.
fn turn(u: i128, v: i128, s: i32, c: i32, Ghost(bound): Ghost<int>) -> (r: (i128, i128))
    requires
        0 <= bound <= TURN_LIMIT,
        -bound <= u <= bound,
        -bound <= v <= bound,
        is_trig_value(s as int),
        is_trig_value(c as int),
    ensures
        (r.0 as int, r.1 as int) == turn_spec(u as int, v as int, s as int, c as int),
        -2 * (bound * TRIG_ONE) <= r.0 <= 2 * (bound * TRIG_ONE),
        -2 * (bound * TRIG_ONE) <= r.1 <= 2 * (bound * TRIG_ONE),
{
    proof {
        lemma_turn_bound(u as int, v as int, s as int, c as int, bound);
        lemma_mul_bound(bound, TRIG_ONE as int, TURN_LIMIT as int, TRIG_ONE as int);
    }
    let s: i128 = s as i128;
    let c: i128 = c as i128;
    (u * c - v * s, u * s + v * c)
}

/// The largest magnitude of a rotated coordinate (two to the power 66).
pub const ROTATED_LIMIT: i128 = 73786976294838206464;

/// `p` after the three rotations of `r`, scaled by two to the power 48.
pub fn rotate(p: Point3, r: &Rotation) -> (q: (i128, i128, i128))
    requires
        r.wf(),
    ensures
        (q.0 as int, q.1 as int, q.2 as int) == rotated_spec(p@, *r),
        -ROTATED_LIMIT <= q.0 <= ROTATED_LIMIT,
        -ROTATED_LIMIT <= q.1 <= ROTATED_LIMIT,
        -ROTATED_LIMIT <= q.2 <= ROTATED_LIMIT,
{
    let one: i128 = TRIG_ONE as i128;
    let (y1, z1) = turn(p.y as i128, p.z as i128, r.sin_x, r.cos_x, Ghost(32768));
    let x1: i128 = (p.x as i128) * one;
    let (z2, x2) = turn(z1, x1, r.sin_y, r.cos_y, Ghost(4294967296));
    let y2: i128 = y1 * one;
    let (x3, y3) = turn(x2, y2, r.sin_z, r.cos_z, Ghost(562949953421312));
    let z3: i128 = z2 * one;
    (x3, y3, z3)
}

/// The cell index `n / d`, rounded towards zero, if it lies in `0..limit`.
fn cell_index(n: i128, d: i128, limit: u16) -> (i: Option<u16>)
    requires
        d > 0,
    ensures
        i.is_some() <==> 0 <= trunc_quot(n as int, d as int) < limit,
        i.is_some() ==> i.unwrap() == trunc_quot(n as int, d as int),
{
    if n < 0 {
        if limit > 0 && n > -d {
            proof {
                vstd::arithmetic::div_mod::lemma_basic_div(-n as int, d as int);
            }
            Some(0)
        } else {
            proof {
                if n <= -d {
                    vstd::arithmetic::div_mod::lemma_div_is_ordered(d as int, -n as int, d as int);
                    vstd::arithmetic::div_mod::lemma_div_basics(d as int);
                }
            }
            None
        }
    } else {
        let q: u128 = (n as u128) / (d as u128);
        if q < limit as u128 {
            Some(q as u16)
        } else {
            None
        }
    }
}

/// Rotates `p` by `r` and projects it onto a grid of `width` by `height`
/// cells. Returns the cell and the inverse depth of the sample, or `None`
/// where the sample falls outside the grid.
pub fn project(p: Point3, r: &Rotation, width: u16, height: u16) -> (s: Option<Projected>)
    requires
        r.wf(),
    ensures
        s == project_spec(p@, *r, width as int, height as int),
        s matches Some(hit) ==> hit.col < width && hit.row < height && hit.depth.wf(),
{
    let q = rotate(p, r);
    let raw: i128 = CUBE_DISTANCE * DEPTH_UNIT + q.2;
    if raw == 0 {
        return None;
    }
    let (x, y, den, num) = if raw > 0 {
        (q.0, q.1, raw, DEPTH_UNIT)
    } else {
        (-q.0, -q.1, -raw, -DEPTH_UNIT)
    };
    proof {
        lemma_mul_bound(width as int, den as int, 65535, 2 * ROTATED_LIMIT as int);
        lemma_mul_bound(height as int, den as int, 65535, 2 * ROTATED_LIMIT as int);
        let sign: int = if raw > 0 { 1 } else { -1 };
        assert(sign * (width * raw + 4 * SCREEN_DISTANCE * q.0) == width * den + 4
            * SCREEN_DISTANCE * x) by (nonlinear_arith)
            requires
                sign == 1 || sign == -1,
                den == sign * raw,
                x == sign * q.0,
        ;
        assert(sign * (height * raw + 2 * SCREEN_DISTANCE * q.1) == height * den + 2
            * SCREEN_DISTANCE * y) by (nonlinear_arith)
            requires
                sign == 1 || sign == -1,
                den == sign * raw,
                y == sign * q.1,
        ;
    }
    let col_gain: i128 = 4 * SCREEN_DISTANCE;
    let row_gain: i128 = 2 * SCREEN_DISTANCE;
    proof {
        lemma_mul_bound(col_gain as int, x as int, 160, ROTATED_LIMIT as int);
        lemma_mul_bound(row_gain as int, y as int, 80, ROTATED_LIMIT as int);
    }
    let col_num: i128 = (width as i128) * den + col_gain * x;
    let row_num: i128 = (height as i128) * den + row_gain * y;
    let col = cell_index(col_num, 2 * den, width);
    let row = cell_index(row_num, 2 * den, height);
    match (col, row) {
        (Some(col), Some(row)) => Some(Projected { col, row, depth: InverseDepth { num, den } }),
        _ => None,
    }
}

/// A projected sample always names a cell of the grid, whatever the point
/// and whatever the rotation.
pub proof fn lemma_projection_in_bounds(p: (int, int, int), r: Rotation, width: int, height: int)
    requires
        0 <= width <= u16::MAX,
        0 <= height <= u16::MAX,
    ensures
        project_spec(p, r, width, height) matches Some(hit) ==> hit.col < width && hit.row
            < height,
{
}

/// The inverse depth of a projected sample is well formed.
pub proof fn lemma_projection_depth_wf(p: (int, int, int), r: Rotation, width: int, height: int)
    requires
        r.wf(),
        -32768 <= p.0 <= 32768,
        -32768 <= p.1 <= 32768,
        -32768 <= p.2 <= 32768,
    ensures
        project_spec(p, r, width, height) matches Some(hit) ==> hit.depth.wf(),
{
    lemma_rotated_bound(p, r);
    let raw = CUBE_DISTANCE * DEPTH_UNIT + rotated_spec(p, r).2;
    let sign: int = if raw > 0 { 1 } else { -1 };
    assert(sign * raw == if raw > 0 { raw } else { -raw }) by (nonlinear_arith)
        requires
            sign == if raw > 0 { 1int } else { -1int },
    ;
    assert(sign * DEPTH_UNIT == if raw > 0 { DEPTH_UNIT as int } else { -DEPTH_UNIT })
        by (nonlinear_arith)
        requires
            sign == if raw > 0 { 1int } else { -1int },
    ;
    assert(CUBE_DISTANCE * DEPTH_UNIT == 16888498602639360);
}

} // verus!
