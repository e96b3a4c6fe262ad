//! The cube's surface: six faces, each a square grid of sample points.

use vstd::prelude::*;

verus! {

/// A point in cube-local space; the origin is the centre of the cube.
#[derive(Clone, Copy, Debug, PartialEq, Eq, Structural)]
pub struct Point3 {
    pub x: i16,
    pub y: i16,
    pub z: i16,
}

impl Point3 {
    /// The point as a triple of mathematical integers.
    pub open spec fn view(self) -> (int, int, int) {
        (self.x as int, self.y as int, self.z as int)
    }
}

/// One of the six faces of the cube, in the order in which they are drawn.
#[derive(Clone, Copy, Debug, PartialEq, Eq, Structural)]
pub enum Face {
    /// The face in the plane `z = -n`, nearest to the viewer at rest.
    Front,
    /// The face in the plane `x = n`.
    Right,
    /// The face in the plane `x = -n`.
    Left,
    /// The face in the plane `z = n`.
    Back,
    /// The face in the plane `y = -n`.
    Top,
    /// The face in the plane `y = n`.
    Bottom,
}

/// The number of faces.
pub const FACE_COUNT: u8 = 6;

/// Whether `v` is a grid coordinate of a cube of half extent `n`.
pub open spec fn in_grid(v: int, n: int) -> bool {
    -n <= v < n
}

/// The sample of `face` at grid position `(a, b)` on a cube of half extent `n`.
pub open spec fn face_point_spec(face: Face, a: int, b: int, n: int) -> (int, int, int) {
    match face {
        Face::Front => (a, b, -n),
        Face::Right => (n, b, a),
        Face::Left => (-n, b, -a),
        Face::Back => (-a, b, n),
        Face::Top => (a, -n, -b),
        Face::Bottom => (a, n, b),
    }
}

/// Whether `p` is a sample position in the plane of `face`: one coordinate is
/// fixed at `n` or `-n`, the other two run over a half-open range of width `2n`.
pub open spec fn on_face(face: Face, n: int, p: (int, int, int)) -> bool {
    match face {
        Face::Front => p.2 == -n && -n <= p.0 < n && -n <= p.1 < n,
        Face::Right => p.0 == n && -n <= p.1 < n && -n <= p.2 < n,
        Face::Left => p.0 == -n && -n <= p.1 < n && -n < p.2 <= n,
        Face::Back => p.2 == n && -n < p.0 <= n && -n <= p.1 < n,
        Face::Top => p.1 == -n && -n <= p.0 < n && -n < p.2 <= n,
        Face::Bottom => p.1 == n && -n <= p.0 < n && -n <= p.2 < n,
    }
}

impl Face {
    /// The position of the face in drawing order.
    pub open spec fn index_spec(self) -> int {
        match self {
            Face::Front => 0,
            Face::Right => 1,
            Face::Left => 2,
            Face::Back => 3,
            Face::Top => 4,
            Face::Bottom => 5,
        }
    }

    /// The glyph that fills the face.
    pub open spec fn glyph_spec(self) -> u8 {
        match self {
            Face::Front => 0x24,
            Face::Right => 0x21,
            Face::Left => 0x7e,
            Face::Back => 0x2b,
            Face::Top => 0x40,
            Face::Bottom => 0x2e,
        }
    }

    /// The position of the face in drawing order.
    pub fn index(self) -> (i: u8)
        ensures
            i == self.index_spec(),
            i < FACE_COUNT,
    {
        match self {
            Face::Front => 0,
            Face::Right => 1,
            Face::Left => 2,
            Face::Back => 3,
            Face::Top => 4,
            Face::Bottom => 5,
        }
    }

    /// The face at position `i` of the drawing order, if there is one.
    pub fn from_index(i: u8) -> (face: Option<Face>)
        ensures
            i < FACE_COUNT <==> face.is_some(),
            face.is_some() ==> face.unwrap().index_spec() == i,
    {
        match i {
            0 => Some(Face::Front),
            1 => Some(Face::Right),
            2 => Some(Face::Left),
            3 => Some(Face::Back),
            4 => Some(Face::Top),
            5 => Some(Face::Bottom),
            _ => None,
        }
    }

    /// The glyph that fills the face, as an ASCII byte:
    /// `$`, `!`, `~`, `+`, `@` and `.` in drawing order.
    pub fn glyph(self) -> (g: u8)
        ensures
            g == self.glyph_spec(),
    {
        match self {
            Face::Front => 0x24,
            Face::Right => 0x21,
            Face::Left => 0x7e,
            Face::Back => 0x2b,
            Face::Top => 0x40,
            Face::Bottom => 0x2e,
        }
    }

    /// The digit of the face's foreground colour: the colour is selected by
    /// the escape sequence `ESC [ 3 d m`, where `d` is this digit. The faces
    /// are red, green, yellow, blue, magenta and cyan in drawing order.
    pub fn color_digit(self) -> (d: u8)
        ensures
            d == 0x31 + self.index_spec(),
    {
        0x31 + self.index()
    }
}

/// The sample of `face` at grid position `(a, b)` on a cube of half extent `n`.
pub fn face_point(face: Face, a: i16, b: i16, n: i16) -> (p: Point3)
    requires
        in_grid(a as int, n as int),
        in_grid(b as int, n as int),
    ensures
        p@ == face_point_spec(face, a as int, b as int, n as int),
{
    match face {
        Face::Front => Point3 { x: a, y: b, z: -n },
        Face::Right => Point3 { x: n, y: b, z: a },
        Face::Left => Point3 { x: -n, y: b, z: -a },
        Face::Back => Point3 { x: -a, y: b, z: n },
        Face::Top => Point3 { x: a, y: -n, z: -b },
        Face::Bottom => Point3 { x: a, y: n, z: b },
    }
}

/// The half extent of the cube for a given grid size: a quarter of the
/// smaller of the height and half the width, rounded down.
pub open spec fn cube_half_extent_spec(width: int, height: int) -> int {
    if height <= width / 2 {
        height / 4
    } else {
        (width / 2) / 4
    }
}

/// The half extent of the cube that suits a grid of `width` columns and
/// `height` rows.
pub fn cube_half_extent(width: u16, height: u16) -> (n: i16)
    ensures
        n == cube_half_extent_spec(width as int, height as int),
        0 <= n <= 16383,
{
    let half_width: u16 = width / 2;
    let side: u16 = if height <= half_width { height } else { half_width };
    (side / 4) as i16
}

/// The samples of a face are exactly the sample positions in its plane: a
/// point lies on the face if and only if some grid position yields it.
pub proof fn lemma_face_coverage(face: Face, n: int, p: (int, int, int))
    ensures
        on_face(face, n, p) <==> exists|a: int, b: int|
            in_grid(a, n) && in_grid(b, n) && #[trigger] face_point_spec(face, a, b, n) == p,
{
    if on_face(face, n, p) {
        let (a, b) = match face {
            Face::Front => (p.0, p.1),
            Face::Right => (p.2, p.1),
            Face::Left => (-p.2, p.1),
            Face::Back => (-p.0, p.1),
            Face::Top => (p.0, -p.2),
            Face::Bottom => (p.0, p.2),
        };
        assert(in_grid(a, n) && in_grid(b, n) && face_point_spec(face, a, b, n) == p);
    }
}

} // verus!
