use ascii_cube::depth::InverseDepth;
use ascii_cube::geometry::{face_point, Face};
use ascii_cube::kernel::{project, Projected, Rotation, TRIG_ONE};
use ascii_cube::raster::{rasterize, Cell, FrameBuffers};
use ascii_cube::text::{clear_screen, push_cell, render, render_frame};

fn depth(num: i128, den: i128) -> InverseDepth {
    InverseDepth::new(num, den).unwrap()
}

#[test]
fn inverse_depths_compare_as_fractions() {
    assert!(depth(1, 59).is_nearer_than(&depth(1, 60)));
    assert!(!depth(1, 60).is_nearer_than(&depth(1, 59)));
    assert!(!depth(1, 59).is_nearer_than(&depth(1, 59)));
    assert!(!depth(2, 118).is_nearer_than(&depth(1, 59)));
    assert!(depth(1, 1000).is_nearer_than(&InverseDepth::baseline()));
    assert!(!depth(-1, 1000).is_nearer_than(&InverseDepth::baseline()));
    assert!(!InverseDepth::baseline().is_nearer_than(&InverseDepth::baseline()));
    assert!(depth(-1, 60).is_nearer_than(&depth(-1, 59)));
    let top = depth(1i128 << 48, 1);
    let bottom = depth(-(1i128 << 48), 1i128 << 68);
    assert!(top.is_nearer_than(&bottom));
}

#[test]
fn inverse_depth_rejects_bad_parts() {
    assert!(InverseDepth::new(1, 0).is_none());
    assert!(InverseDepth::new(1, -5).is_none());
    assert!(InverseDepth::new((1i128 << 48) + 1, 1).is_none());
    assert!(InverseDepth::new(-(1i128 << 48) - 1, 1).is_none());
    assert!(InverseDepth::new(0, (1i128 << 68) + 1).is_none());
    assert_eq!(InverseDepth::new(3, 7), Some(InverseDepth { num: 3, den: 7 }));
    assert_eq!(InverseDepth::baseline(), InverseDepth { num: 0, den: 1 });
}

#[test]
fn fresh_buffers_are_blank() {
    let fb = FrameBuffers::new(5, 3);
    assert_eq!(fb.width, 5);
    assert_eq!(fb.height, 3);
    assert_eq!(fb.cells.len(), 15);
    assert_eq!(fb.depth.len(), 15);
    for row in 0..3 {
        for col in 0..5 {
            assert_eq!(fb.cell(row, col), Cell::Background);
            assert_eq!(fb.depth_at(row, col), InverseDepth::baseline());
        }
    }
    let empty = FrameBuffers::new(0, 9);
    assert!(empty.cells.is_empty());
}

#[test]
fn nearer_sample_takes_the_cell() {
    let mut fb = FrameBuffers::new(4, 3);
    let at = |d: InverseDepth| Projected { col: 2, row: 1, depth: d };
    fb.plot(Face::Back, at(depth(1, 61)));
    assert_eq!(fb.cell(1, 2), Cell::Filled(Face::Back));
    assert_eq!(fb.depth_at(1, 2), depth(1, 61));
    assert_eq!(fb.cells[6], Cell::Filled(Face::Back));
    fb.plot(Face::Front, at(depth(1, 59)));
    assert_eq!(fb.cell(1, 2), Cell::Filled(Face::Front));
    assert_eq!(fb.depth_at(1, 2), depth(1, 59));
    // a farther sample that comes later changes nothing
    fb.plot(Face::Left, at(depth(1, 60)));
    assert_eq!(fb.cell(1, 2), Cell::Filled(Face::Front));
    assert_eq!(fb.depth_at(1, 2), depth(1, 59));
    // no other cell was touched
    let filled = fb.cells.iter().filter(|c| **c != Cell::Background).count();
    assert_eq!(filled, 1);
}

#[test]
fn equally_near_sample_leaves_the_first_in_place() {
    let mut fb = FrameBuffers::new(4, 3);
    fb.plot(Face::Bottom, Projected { col: 0, row: 2, depth: depth(1, 59) });
    fb.plot(Face::Front, Projected { col: 0, row: 2, depth: depth(1, 59) });
    fb.plot(Face::Top, Projected { col: 0, row: 2, depth: depth(2, 118) });
    assert_eq!(fb.cell(2, 0), Cell::Filled(Face::Bottom));
    assert_eq!(fb.depth_at(2, 0), depth(1, 59));
}

#[test]
fn sample_at_or_behind_the_baseline_is_never_drawn() {
    let mut fb = FrameBuffers::new(2, 2);
    fb.plot(Face::Front, Projected { col: 1, row: 1, depth: depth(-1, 4) });
    fb.plot(Face::Right, Projected { col: 1, row: 0, depth: depth(0, 4) });
    assert_eq!(fb.cell(1, 1), Cell::Background);
    assert_eq!(fb.cell(0, 1), Cell::Background);
    assert_eq!(fb.depth_at(1, 1), InverseDepth::baseline());
}

#[test]
fn accepted_depths_never_decrease() {
    let mut fb = FrameBuffers::new(3, 3);
    let offers = [(1, 70), (1, 65), (1, 80), (1, 65), (1, 59), (-1, 3), (1, 62), (1, 58)];
    let mut last = InverseDepth::baseline();
    let mut best = InverseDepth::baseline();
    for (i, &(num, den)) in offers.iter().enumerate() {
        let offered = depth(num, den);
        if offered.is_nearer_than(&best) {
            best = offered;
        }
        fb.plot(Face::from_index((i % 6) as u8).unwrap(), Projected { col: 1, row: 1, depth: offered });
        let now = fb.depth_at(1, 1);
        assert!(!last.is_nearer_than(&now));
        assert_eq!(now, best);
        last = now;
    }
    assert_eq!(fb.depth_at(1, 1), depth(1, 58));
    // the last offer, the eighth, was made for the face at position 7 % 6
    assert_eq!(fb.cell(1, 1), Cell::Filled(Face::Right));
}

#[test]
fn draw_projects_and_plots() {
    let r = Rotation::identity();
    let mut fb = FrameBuffers::new(80, 24);
    // (0, 0, -1) lands in the middle of the grid
    fb.draw(&r, 1, 0, 0, Face::Front);
    assert_eq!(fb.cell(12, 40), Cell::Filled(Face::Front));
    let mut fb = FrameBuffers::new(80, 24);
    fb.draw(&r, 1, -1, -1, Face::Right);
    // (1, -1, -1): 40 + 80 / 59 = 41.3..., 12 - 40 / 59 = 11.3...
    assert_eq!(fb.cell(11, 41), Cell::Filled(Face::Right));
    assert_eq!(fb.depth_at(11, 41).num * 59, fb.depth_at(11, 41).den);
    // a sample that misses the grid changes nothing
    let mut small = FrameBuffers::new(2, 2);
    small.draw(&r, 30, 29, 0, Face::Front);
    assert!(small.cells.iter().all(|c| *c == Cell::Background));
}

fn cell_bytes(face: Face) -> Vec<u8> {
    let mut out = Vec::new();
    push_cell(&mut out, Cell::Filled(face));
    out
}

#[test]
fn cell_text_wraps_the_glyph_in_colour() {
    assert_eq!(cell_bytes(Face::Front), b"\x1b[31m$\x1b[0m".to_vec());
    assert_eq!(cell_bytes(Face::Right), b"\x1b[32m!\x1b[0m".to_vec());
    assert_eq!(cell_bytes(Face::Left), b"\x1b[33m~\x1b[0m".to_vec());
    assert_eq!(cell_bytes(Face::Back), b"\x1b[34m+\x1b[0m".to_vec());
    assert_eq!(cell_bytes(Face::Top), b"\x1b[35m@\x1b[0m".to_vec());
    assert_eq!(cell_bytes(Face::Bottom), b"\x1b[36m.\x1b[0m".to_vec());
    let mut out = b"ab".to_vec();
    push_cell(&mut out, Cell::Background);
    assert_eq!(out, b"ab ".to_vec());
}

#[test]
fn clear_screen_sequence() {
    assert_eq!(clear_screen(), b"\x1b[2J\x1b[H".to_vec());
}

#[test]
fn blank_frame_is_rows_of_spaces() {
    let fb = FrameBuffers::new(3, 2);
    assert_eq!(render(&fb), b"   \n   \n\x1b[H".to_vec());
    let fb = FrameBuffers::new(0, 2);
    assert_eq!(render(&fb), b"\n\n\x1b[H".to_vec());
    let fb = FrameBuffers::new(3, 0);
    assert_eq!(render(&fb), b"\x1b[H".to_vec());
}

#[test]
fn rendered_frame_follows_the_rows() {
    let mut fb = FrameBuffers::new(3, 2);
    fb.plot(Face::Top, Projected { col: 2, row: 0, depth: depth(1, 60) });
    fb.plot(Face::Left, Projected { col: 0, row: 1, depth: depth(1, 60) });
    assert_eq!(render(&fb), b"  \x1b[35m@\x1b[0m\n\x1b[33m~\x1b[0m  \n\x1b[H".to_vec());
}

fn picture(fb: &FrameBuffers) -> Vec<String> {
    let mut rows = Vec::new();
    for row in 0..fb.height {
        let mut line = String::new();
        for col in 0..fb.width {
            line.push(match fb.cell(row, col) {
                Cell::Background => ' ',
                Cell::Filled(face) => face.glyph() as char,
            });
        }
        rows.push(line);
    }
    rows
}

#[test]
fn smallest_cube_at_rest() {
    let r = Rotation::identity();
    let fb = rasterize(&r, 8, 4);
    assert_eq!(picture(&fb), vec!["        ", "  $ $!  ", "  . .!  ", "        "]);
    // the front face and the bottom face meet in row 2 at equal depth: the
    // bottom face was drawn first and stays
    assert_eq!(fb.depth_at(2, 2).num * 59, fb.depth_at(2, 2).den);
    assert_eq!(fb.cell(2, 2), Cell::Filled(Face::Bottom));
}

#[test]
fn grid_too_small_for_a_cube_stays_blank() {
    let r = Rotation::identity();
    let fb = rasterize(&r, 7, 4);
    assert!(fb.cells.iter().all(|c| *c == Cell::Background));
    assert_eq!(render_frame(&r, 3, 1), b"   \n\x1b[H".to_vec());
}

#[test]
fn cube_at_rest_shows_its_front_face() {
    let r = Rotation::identity();
    let fb = rasterize(&r, 80, 24);
    // the centre of the grid is covered by the front face
    assert_eq!(fb.cell(12, 40), Cell::Filled(Face::Front));
    // the samples of the front face are the nearest of all: each keeps its cell
    for a in -6i16..6 {
        for b in -6i16..6 {
            let p = face_point(Face::Front, a, b, 6);
            let hit = project(p, &r, 80, 24).unwrap();
            assert_eq!(hit.depth.num * 54, hit.depth.den);
            assert_eq!(fb.depth_at(hit.row, hit.col), hit.depth);
        }
    }
    // every depth on record belongs to a filled cell
    for row in 0..24 {
        for col in 0..80 {
            let filled = fb.cell(row, col) != Cell::Background;
            assert_eq!(filled, fb.depth_at(row, col).is_nearer_than(&InverseDepth::baseline()));
        }
    }
}

#[test]
fn same_inputs_give_the_same_bytes() {
    let r = Rotation::new(3277, 65454, 6540, 65209, -13000, 64234).unwrap();
    let first = render_frame(&r, 80, 24);
    let second = render_frame(&r, 80, 24);
    assert_eq!(first, second);
    let rows = first.iter().filter(|b| **b == b'\n').count();
    assert_eq!(rows, 24);
    assert!(first.ends_with(b"\x1b[H"));
    let other = render_frame(&Rotation::new(0, TRIG_ONE, TRIG_ONE, 0, 0, TRIG_ONE).unwrap(), 80, 24);
    assert_ne!(first, other);
}

#[test]
fn render_frame_is_render_of_rasterize() {
    let r = Rotation::new(0, TRIG_ONE, 46341, 46341, 0, TRIG_ONE).unwrap();
    let fb = rasterize(&r, 40, 20);
    assert_eq!(render_frame(&r, 40, 20), render(&fb));
    let width = 40usize;
    let mut cells = 0;
    for &b in render(&fb).iter() {
        if b == b' ' || b"$!~+@.".contains(&b) {
            cells += 1;
        }
    }
    assert_eq!(cells, width * 20);
}

#[test]
fn finished_frame_holds_the_nearest_sample_of_every_cell() {
    let r = Rotation::new(19509, 62565, -25080, 60547, 31164, 57653).unwrap();
    let (width, height) = (60u16, 30u16);
    let n = 7i16;
    let fb = rasterize(&r, width, height);
    // for every cell, the face of the first sample that is as near as the record
    let mut owners: Vec<Option<Face>> = vec![None; 60 * 30];
    for a in -n..n {
        for b in -n..n {
            for i in 0u8..6 {
                let face = Face::from_index(i).unwrap();
                if let Some(hit) = project(face_point(face, a, b, n), &r, width, height) {
                    let seen = fb.depth_at(hit.row, hit.col);
                    assert!(!hit.depth.is_nearer_than(&seen));
                    let at = hit.row as usize * 60 + hit.col as usize;
                    if hit.depth == seen && owners[at].is_none() {
                        owners[at] = Some(face);
                    }
                }
            }
        }
    }
    for row in 0..height {
        for col in 0..width {
            let blank = fb.cell(row, col) == Cell::Background
                && fb.depth_at(row, col) == InverseDepth::baseline();
            match owners[row as usize * 60 + col as usize] {
                Some(face) => assert_eq!(fb.cell(row, col), Cell::Filled(face)),
                None => assert!(blank),
            }
        }
    }
}
