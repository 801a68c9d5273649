//! Geometry kernel: direction algebra, canonical tables, rotations, and
//! placement expansion.

use pc_assist::plan::canonical_cells;
use pc_assist::plan::oriented_cells;
use pc_assist::plan::rotate_cells;
use pc_assist::Direction;
use pc_assist::EdgeSet;
use pc_assist::PieceType;
use pc_assist::Placement;
use pc_assist::Rotation;

fn edges(up: bool, down: bool, left: bool, right: bool) -> EdgeSet {
    EdgeSet { up, down, left, right }
}

const ALL_PIECES: [PieceType; 7] = [
    PieceType::I,
    PieceType::O,
    PieceType::T,
    PieceType::L,
    PieceType::J,
    PieceType::S,
    PieceType::Z,
];

const ALL_ROTATIONS: [Rotation; 4] = [
    Rotation::North,
    Rotation::East,
    Rotation::South,
    Rotation::West,
];

#[test]
fn direction_cw_cycles() {
    assert_eq!(Direction::Up.cw(), Direction::Right);
    assert_eq!(Direction::Right.cw(), Direction::Down);
    assert_eq!(Direction::Down.cw(), Direction::Left);
    assert_eq!(Direction::Left.cw(), Direction::Up);
}

#[test]
fn direction_ccw_cycles() {
    assert_eq!(Direction::Up.ccw(), Direction::Left);
    assert_eq!(Direction::Left.ccw(), Direction::Down);
    assert_eq!(Direction::Down.ccw(), Direction::Right);
    assert_eq!(Direction::Right.ccw(), Direction::Up);
}

#[test]
fn direction_flip_reverses() {
    assert_eq!(Direction::Up.flip(), Direction::Down);
    assert_eq!(Direction::Down.flip(), Direction::Up);
    assert_eq!(Direction::Left.flip(), Direction::Right);
    assert_eq!(Direction::Right.flip(), Direction::Left);
}

#[test]
fn direction_cw_then_ccw_is_identity() {
    for d in [Direction::Up, Direction::Down, Direction::Left, Direction::Right] {
        assert_eq!(d.cw().ccw(), d);
        assert_eq!(d.ccw().cw(), d);
        assert_eq!(d.flip().flip(), d);
    }
}

#[test]
fn canonical_o_table() {
    let t = canonical_cells(PieceType::O);
    assert_eq!(t[0], (0, 0, edges(true, false, false, true)));
    assert_eq!(t[1], (1, 0, edges(true, false, true, false)));
    assert_eq!(t[2], (0, 1, edges(false, true, false, true)));
    assert_eq!(t[3], (1, 1, edges(false, true, true, false)));
}

#[test]
fn canonical_t_table() {
    let t = canonical_cells(PieceType::T);
    assert_eq!(t[0], (-1, 0, edges(false, false, false, true)));
    assert_eq!(t[1], (0, 0, edges(true, false, true, true)));
    assert_eq!(t[2], (1, 0, edges(false, false, true, false)));
    assert_eq!(t[3], (0, 1, edges(false, true, false, false)));
}

#[test]
fn north_orientation_is_canonical() {
    for p in ALL_PIECES {
        assert_eq!(oriented_cells(p, Rotation::North), canonical_cells(p));
    }
}

#[test]
fn east_rotation_of_i() {
    // (column, row) -> (row, -column), edges turn clockwise with the cells.
    let t = oriented_cells(PieceType::I, Rotation::East);
    assert_eq!(t[0], (0, 1, edges(false, true, false, false)));
    assert_eq!(t[1], (0, 0, edges(true, true, false, false)));
    assert_eq!(t[2], (0, -1, edges(true, true, false, false)));
    assert_eq!(t[3], (0, -2, edges(true, false, false, false)));
}

#[test]
fn rotation_roundtrip_restores_every_table() {
    for p in ALL_PIECES {
        for r in ALL_ROTATIONS {
            let rotated = rotate_cells(canonical_cells(p), r);
            let back = rotate_cells(rotated, r.inverse());
            assert_eq!(back, canonical_cells(p), "{:?} {:?}", p, r);
        }
    }
}

#[test]
fn placement_translates_by_anchor() {
    let pl = Placement { piece: PieceType::O, rotation: Rotation::North, x: 3, y: 2 };
    let c = pl.cells();
    assert_eq!(c[0], (3, 2, edges(true, false, false, true)));
    assert_eq!(c[1], (4, 2, edges(true, false, true, false)));
    assert_eq!(c[2], (3, 3, edges(false, true, false, true)));
    assert_eq!(c[3], (4, 3, edges(false, true, true, false)));
}

#[test]
fn placement_shifts_negative_columns_into_range() {
    let pl = Placement { piece: PieceType::T, rotation: Rotation::North, x: 0, y: 0 };
    let c = pl.cells();
    assert_eq!(c[0], (0, 0, edges(false, false, false, true)));
    assert_eq!(c[1], (1, 0, edges(true, false, true, true)));
    assert_eq!(c[2], (2, 0, edges(false, false, true, false)));
    assert_eq!(c[3], (1, 1, edges(false, true, false, false)));
}

#[test]
fn placement_normalizes_rotated_cells() {
    let pl = Placement { piece: PieceType::T, rotation: Rotation::East, x: 0, y: 0 };
    let c = pl.cells();
    assert_eq!(c[0], (0, 2, edges(false, true, false, false)));
    assert_eq!(c[1], (0, 1, edges(true, true, false, true)));
    assert_eq!(c[2], (0, 0, edges(true, false, false, false)));
    assert_eq!(c[3], (1, 1, edges(false, false, true, false)));
}

#[test]
fn open_edges_point_at_neighbouring_cells() {
    // In every rotation, a direction is open on a cell exactly when the
    // position one step that way holds another cell of the same piece.
    for p in ALL_PIECES {
        for r in ALL_ROTATIONS {
            let cells = oriented_cells(p, r);
            for &(x, y, e) in cells.iter() {
                for (open, dx, dy) in [
                    (e.up, 0, 1),
                    (e.down, 0, -1),
                    (e.left, -1, 0),
                    (e.right, 1, 0),
                ] {
                    let neighbour = cells.iter().any(|&(nx, ny, _)| nx == x + dx && ny == y + dy);
                    assert_eq!(open, neighbour, "{:?} {:?} cell ({}, {})", p, r, x, y);
                }
            }
        }
    }
}

#[test]
fn anchor_range_check_matches_the_kernel_bound() {
    let near = Placement { piece: PieceType::I, rotation: Rotation::North, x: 9, y: 19 };
    assert!(near.in_range());
    let far = Placement { piece: PieceType::I, rotation: Rotation::North, x: 0x1000_0001, y: 0 };
    assert!(!far.in_range());
}

#[test]
fn placement_cells_never_negative() {
    for p in ALL_PIECES {
        for r in ALL_ROTATIONS {
            let pl = Placement { piece: p, rotation: r, x: 0, y: 0 };
            for &(x, y, _) in pl.cells().iter() {
                assert!(x >= 0 && y >= 0, "{:?} {:?}", p, r);
            }
        }
    }
}
