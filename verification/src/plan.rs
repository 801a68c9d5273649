//! Geometry kernel: canonical piece cell tables, rotation transforms, and
//! placement-to-cell expansion for the visual overlay.

use vstd::prelude::*;

verus! {

/// One of the four cardinal edge directions of a cell.
#[derive(Clone, Copy, Debug, PartialEq, Eq, Structural)]
pub enum Direction {
    Up,
    Down,
    Left,
    Right,
}

/// The clockwise neighbour of an edge direction.
pub open spec fn dir_cw(d: Direction) -> Direction {
    match d {
        Direction::Up => Direction::Right,
        Direction::Right => Direction::Down,
        Direction::Down => Direction::Left,
        Direction::Left => Direction::Up,
    }
}

/// The counter-clockwise neighbour of an edge direction.
pub open spec fn dir_ccw(d: Direction) -> Direction {
    match d {
        Direction::Up => Direction::Left,
        Direction::Left => Direction::Down,
        Direction::Down => Direction::Right,
        Direction::Right => Direction::Up,
    }
}

/// The opposite of an edge direction.
pub open spec fn dir_flip(d: Direction) -> Direction {
    match d {
        Direction::Up => Direction::Down,
        Direction::Down => Direction::Up,
        Direction::Left => Direction::Right,
        Direction::Right => Direction::Left,
    }
}

impl Direction {
    /// Rotate this direction a quarter turn clockwise.
    pub fn cw(self) -> (r: Direction)
        ensures
            r == dir_cw(self),
    {
        match self {
            Direction::Up => Direction::Right,
            Direction::Right => Direction::Down,
            Direction::Down => Direction::Left,
            Direction::Left => Direction::Up,
        }
    }

    /// Rotate this direction a quarter turn counter-clockwise.
    pub fn ccw(self) -> (r: Direction)
        ensures
            r == dir_ccw(self),
    {
        match self {
            Direction::Up => Direction::Left,
            Direction::Left => Direction::Down,
            Direction::Down => Direction::Right,
            Direction::Right => Direction::Up,
        }
    }

    /// Reverse this direction.
    pub fn flip(self) -> (r: Direction)
        ensures
            r == dir_flip(self),
    {
        match self {
            Direction::Up => Direction::Down,
            Direction::Down => Direction::Up,
            Direction::Left => Direction::Right,
            Direction::Right => Direction::Left,
        }
    }
}

/// A set of open edge directions of one cell: the sides on which the cell
/// touches another cell of the same piece.
#[derive(Clone, Copy, Debug, PartialEq, Eq, Structural)]
pub struct EdgeSet {
    pub up: bool,
    pub down: bool,
    pub left: bool,
    pub right: bool,
}

/// Membership of an edge direction in an edge set.
pub open spec fn edge_contains(e: EdgeSet, d: Direction) -> bool {
    match d {
        Direction::Up => e.up,
        Direction::Down => e.down,
        Direction::Left => e.left,
        Direction::Right => e.right,
    }
}

/// The edge set whose members are the clockwise rotations of `e`'s members.
pub open spec fn edges_cw(e: EdgeSet) -> EdgeSet {
    EdgeSet { up: e.left, right: e.up, down: e.right, left: e.down }
}

/// The edge set whose members are the counter-clockwise rotations of `e`'s members.
pub open spec fn edges_ccw(e: EdgeSet) -> EdgeSet {
    EdgeSet { up: e.right, left: e.up, down: e.left, right: e.down }
}

/// The edge set whose members are the reversals of `e`'s members.
pub open spec fn edges_flip(e: EdgeSet) -> EdgeSet {
    EdgeSet { up: e.down, down: e.up, left: e.right, right: e.left }
}

impl EdgeSet {
    /// The empty edge set.
    pub fn none() -> (r: EdgeSet)
        ensures
            forall|d: Direction| !edge_contains(r, d),
    {
        EdgeSet { up: false, down: false, left: false, right: false }
    }

    /// Whether `d` is a member of this set.
    pub fn contains(&self, d: Direction) -> (r: bool)
        ensures
            r == edge_contains(*self, d),
    {
        match d {
            Direction::Up => self.up,
            Direction::Down => self.down,
            Direction::Left => self.left,
            Direction::Right => self.right,
        }
    }
}

/// Rotating an edge set clockwise rotates each member clockwise.
pub proof fn lemma_edges_cw_members(e: EdgeSet)
    ensures
        forall|d: Direction| edge_contains(edges_cw(e), dir_cw(d)) == edge_contains(e, d),
{
    assert forall|d: Direction| edge_contains(edges_cw(e), dir_cw(d)) == edge_contains(e, d) by {
        match d {
            Direction::Up => {},
            Direction::Down => {},
            Direction::Left => {},
            Direction::Right => {},
        }
    }
}

/// Rotating an edge set counter-clockwise rotates each member
/// counter-clockwise.
pub proof fn lemma_edges_ccw_members(e: EdgeSet)
    ensures
        forall|d: Direction| edge_contains(edges_ccw(e), dir_ccw(d)) == edge_contains(e, d),
{
    assert forall|d: Direction| edge_contains(edges_ccw(e), dir_ccw(d)) == edge_contains(e, d) by {
        match d {
            Direction::Up => {},
            Direction::Down => {},
            Direction::Left => {},
            Direction::Right => {},
        }
    }
}

/// Flipping an edge set reverses each member.
pub proof fn lemma_edges_flip_members(e: EdgeSet)
    ensures
        forall|d: Direction| edge_contains(edges_flip(e), dir_flip(d)) == edge_contains(e, d),
{
    assert forall|d: Direction| edge_contains(edges_flip(e), dir_flip(d)) == edge_contains(e, d)
        by {
        match d {
            Direction::Up => {},
            Direction::Down => {},
            Direction::Left => {},
            Direction::Right => {},
        }
    }
}

/// The seven piece types of the closed enumeration.
#[derive(Clone, Copy, Debug, PartialEq, Eq, Structural)]
pub enum PieceType {
    I,
    O,
    T,
    L,
    J,
    S,
    Z,
}

/// The four rotation states of a piece: quarter turns clockwise from spawn.
#[derive(Clone, Copy, Debug, PartialEq, Eq, Structural)]
pub enum Rotation {
    North,
    East,
    South,
    West,
}

/// The rotation that undoes `r`.
pub open spec fn rotation_inverse(r: Rotation) -> Rotation {
    match r {
        Rotation::North => Rotation::North,
        Rotation::East => Rotation::West,
        Rotation::South => Rotation::South,
        Rotation::West => Rotation::East,
    }
}

impl Rotation {
    /// The rotation that undoes this one.
    pub fn inverse(self) -> (r: Rotation)
        ensures
            r == rotation_inverse(self),
    {
        match self {
            Rotation::North => Rotation::North,
            Rotation::East => Rotation::West,
            Rotation::South => Rotation::South,
            Rotation::West => Rotation::East,
        }
    }
}

/// A cell of a piece in specification space: column, row, and open edges.
pub struct SpecCell {
    pub x: int,
    pub y: int,
    pub edges: EdgeSet,
}

/// One renderable cell: column, row, and the set of open edge directions.
pub type Cell = (i32, i32, EdgeSet);

/// Four renderable cells, one per mino of a piece.
pub type Cells = [Cell; 4];

/// The specification-space value of an executable cell.
pub open spec fn cell_view(c: Cell) -> SpecCell {
    SpecCell { x: c.0 as int, y: c.1 as int, edges: c.2 }
}

/// The canonical (unrotated, untranslated) cell table of a piece type.
pub open spec fn piece_table(p: PieceType) -> Seq<SpecCell> {
    let e = |u: bool, d: bool, l: bool, r: bool| EdgeSet { up: u, down: d, left: l, right: r };
    match p {
        PieceType::I => seq![
            SpecCell { x: -1, y: 0, edges: e(false, false, false, true) },
            SpecCell { x: 0, y: 0, edges: e(false, false, true, true) },
            SpecCell { x: 1, y: 0, edges: e(false, false, true, true) },
            SpecCell { x: 2, y: 0, edges: e(false, false, true, false) },
        ],
        PieceType::O => seq![
            SpecCell { x: 0, y: 0, edges: e(true, false, false, true) },
            SpecCell { x: 1, y: 0, edges: e(true, false, true, false) },
            SpecCell { x: 0, y: 1, edges: e(false, true, false, true) },
            SpecCell { x: 1, y: 1, edges: e(false, true, true, false) },
        ],
        PieceType::L => seq![
            SpecCell { x: -1, y: 0, edges: e(false, false, false, true) },
            SpecCell { x: 0, y: 0, edges: e(false, false, true, true) },
            SpecCell { x: 1, y: 0, edges: e(true, false, true, false) },
            SpecCell { x: 1, y: 1, edges: e(false, true, false, false) },
        ],
        PieceType::J => seq![
            SpecCell { x: -1, y: 0, edges: e(true, false, false, true) },
            SpecCell { x: 0, y: 0, edges: e(false, false, true, true) },
            SpecCell { x: 1, y: 0, edges: e(false, false, true, false) },
            SpecCell { x: -1, y: 1, edges: e(false, true, false, false) },
        ],
        PieceType::T => seq![
            SpecCell { x: -1, y: 0, edges: e(false, false, false, true) },
            SpecCell { x: 0, y: 0, edges: e(true, false, true, true) },
            SpecCell { x: 1, y: 0, edges: e(false, false, true, false) },
            SpecCell { x: 0, y: 1, edges: e(false, true, false, false) },
        ],
        PieceType::S => seq![
            SpecCell { x: -1, y: 0, edges: e(false, false, false, true) },
            SpecCell { x: 0, y: 0, edges: e(true, false, true, false) },
            SpecCell { x: 0, y: 1, edges: e(false, true, false, true) },
            SpecCell { x: 1, y: 1, edges: e(false, false, true, false) },
        ],
        PieceType::Z => seq![
            SpecCell { x: -1, y: 1, edges: e(false, false, false, true) },
            SpecCell { x: 0, y: 1, edges: e(false, true, true, false) },
            SpecCell { x: 0, y: 0, edges: e(true, false, false, true) },
            SpecCell { x: 1, y: 0, edges: e(false, false, true, false) },
        ],
    }
}

/// Apply a rotation to one cell: coordinates transform as quarter turns and
/// each open edge direction turns with them.
///
/// With rows counted upward, a quarter turn clockwise sends
/// `(column, row)` to `(row, -column)`, a half turn to `(-column, -row)`,
/// and a quarter turn counter-clockwise to `(-row, column)`. The edge maps
/// turn the same way, so an edge set keeps marking exactly the sides on
/// which the cell touches another cell of the same piece (see
/// `lemma_edges_mark_adjacency`).
pub open spec fn rotate_cell(r: Rotation, c: SpecCell) -> SpecCell {
    match r {
        Rotation::North => c,
        Rotation::East => SpecCell { x: c.y, y: -c.x, edges: edges_cw(c.edges) },
        Rotation::South => SpecCell { x: -c.x, y: -c.y, edges: edges_flip(c.edges) },
        Rotation::West => SpecCell { x: -c.y, y: c.x, edges: edges_ccw(c.edges) },
    }
}

/// Rotating a cell and then applying the inverse rotation restores it.
pub proof fn lemma_rotate_cell_roundtrip(r: Rotation, c: SpecCell)
    ensures
        rotate_cell(rotation_inverse(r), rotate_cell(r, c)) == c,
{
}

/// Rotation round trip over the canonical tables: for every piece type and
/// every rotation, applying the rotation and then its exact inverse restores
/// the original canonical cell/edge-set table.
pub proof fn lemma_rotation_roundtrip(p: PieceType, r: Rotation)
    ensures
        forall|i: int|
            0 <= i < piece_table(p).len() ==> rotate_cell(
                rotation_inverse(r),
                rotate_cell(r, piece_table(p)[i]),
            ) == piece_table(p)[i],
{
    assert forall|i: int|
        0 <= i < piece_table(p).len() implies rotate_cell(
        rotation_inverse(r),
        rotate_cell(r, piece_table(p)[i]),
    ) == piece_table(p)[i] by {
        lemma_rotate_cell_roundtrip(r, piece_table(p)[i]);
    }
}

/// The column offset of one step in a direction.
pub open spec fn dir_dx(d: Direction) -> int {
    match d {
        Direction::Left => -1,
        Direction::Right => 1,
        _ => 0,
    }
}

/// The row offset of one step in a direction, rows counted upward.
pub open spec fn dir_dy(d: Direction) -> int {
    match d {
        Direction::Down => -1,
        Direction::Up => 1,
        _ => 0,
    }
}

/// Whether the rotated table of `p` has a cell at column `x`, row `y`.
pub open spec fn table_has_cell_at(p: PieceType, r: Rotation, x: int, y: int) -> bool {
    exists|j: int|
        0 <= j < 4 && (#[trigger] rotate_cell(r, piece_table(p)[j])).x == x && rotate_cell(
            r,
            piece_table(p)[j],
        ).y == y
}

/// Edge sets mean adjacency, in every rotation: a direction is open on a
/// cell of a piece's table exactly when the neighbouring position one step
/// that way holds another cell of the same piece.
#[verifier::rlimit(100)]
#[verifier::spinoff_prover]
pub proof fn lemma_edges_mark_adjacency(p: PieceType, r: Rotation)
    ensures
        forall|i: int, d: Direction|
            0 <= i < 4 ==> #[trigger] edge_contains(rotate_cell(r, piece_table(p)[i]).edges, d)
                == table_has_cell_at(
                p,
                r,
                rotate_cell(r, piece_table(p)[i]).x + dir_dx(d),
                rotate_cell(r, piece_table(p)[i]).y + dir_dy(d),
            ),
{
    assert forall|i: int, d: Direction|
        0 <= i < 4 implies #[trigger] edge_contains(rotate_cell(r, piece_table(p)[i]).edges, d)
        == table_has_cell_at(
        p,
        r,
        rotate_cell(r, piece_table(p)[i]).x + dir_dx(d),
        rotate_cell(r, piece_table(p)[i]).y + dir_dy(d),
    ) by {
        let w0 = rotate_cell(r, piece_table(p)[0]);
        let w1 = rotate_cell(r, piece_table(p)[1]);
        let w2 = rotate_cell(r, piece_table(p)[2]);
        let w3 = rotate_cell(r, piece_table(p)[3]);
        match p {
            PieceType::I => {
                match r {
                    Rotation::North => {},
                    Rotation::East => {},
                    Rotation::South => {},
                    Rotation::West => {},
                }
            },
            PieceType::O => {
                match r {
                    Rotation::North => {},
                    Rotation::East => {},
                    Rotation::South => {},
                    Rotation::West => {},
                }
            },
            PieceType::T => {
                match r {
                    Rotation::North => {},
                    Rotation::East => {},
                    Rotation::South => {},
                    Rotation::West => {},
                }
            },
            PieceType::L => {
                match r {
                    Rotation::North => {},
                    Rotation::East => {},
                    Rotation::South => {},
                    Rotation::West => {},
                }
            },
            PieceType::J => {
                match r {
                    Rotation::North => {},
                    Rotation::East => {},
                    Rotation::South => {},
                    Rotation::West => {},
                }
            },
            PieceType::S => {
                match r {
                    Rotation::North => {},
                    Rotation::East => {},
                    Rotation::South => {},
                    Rotation::West => {},
                }
            },
            PieceType::Z => {
                match r {
                    Rotation::North => {},
                    Rotation::East => {},
                    Rotation::South => {},
                    Rotation::West => {},
                }
            },
        }
    }
}

/// The smaller of two integers.
pub open spec fn imin(a: int, b: int) -> int {
    if a <= b {
        a
    } else {
        b
    }
}

/// A candidate placement: a piece type, a rotation, and an anchor position.
/// `x` is the horizontal anchor; `y` is the vertical anchor including the
/// piece-specific vertical spawn offset.
#[derive(Clone, Copy, Debug, PartialEq, Eq, Structural)]
pub struct Placement {
    pub piece: PieceType,
    pub rotation: Rotation,
    pub x: i32,
    pub y: i32,
}

/// Largest anchor magnitude accepted by the geometry kernel; keeps every
/// intermediate coordinate far from `i32` overflow.
pub open spec fn anchor_bound() -> int {
    0x1000_0000
}

/// Whether a placement's anchor lies within the kernel's accepted range.
pub open spec fn placement_in_range(pl: Placement) -> bool {
    -anchor_bound() <= pl.x <= anchor_bound() && -anchor_bound() <= pl.y <= anchor_bound()
}

/// The rotated, translated (not yet normalized) cell `i` of a placement.
pub open spec fn raw_cell(pl: Placement, i: int) -> SpecCell {
    let c = rotate_cell(pl.rotation, piece_table(pl.piece)[i]);
    SpecCell { x: c.x + pl.x, y: c.y + pl.y, edges: c.edges }
}

/// The least column among a placement's four raw cells.
pub open spec fn placement_min_x(pl: Placement) -> int {
    imin(
        imin(raw_cell(pl, 0).x, raw_cell(pl, 1).x),
        imin(raw_cell(pl, 2).x, raw_cell(pl, 3).x),
    )
}

/// The least row among a placement's four raw cells.
pub open spec fn placement_min_y(pl: Placement) -> int {
    imin(
        imin(raw_cell(pl, 0).y, raw_cell(pl, 1).y),
        imin(raw_cell(pl, 2).y, raw_cell(pl, 3).y),
    )
}

/// The normalizing column shift: the magnitude of the most negative column,
/// or zero when no column is negative.
pub open spec fn placement_shift_x(pl: Placement) -> int {
    if placement_min_x(pl) < 0 {
        -placement_min_x(pl)
    } else {
        0
    }
}

/// The normalizing row shift: the magnitude of the most negative row, or
/// zero when no row is negative.
pub open spec fn placement_shift_y(pl: Placement) -> int {
    if placement_min_y(pl) < 0 {
        -placement_min_y(pl)
    } else {
        0
    }
}

/// Renderable cell `i` of a placement: rotated, translated by the anchor,
/// then shifted so that no coordinate is negative.
pub open spec fn placement_cell(pl: Placement, i: int) -> SpecCell {
    let c = raw_cell(pl, i);
    SpecCell { x: c.x + placement_shift_x(pl), y: c.y + placement_shift_y(pl), edges: c.edges }
}

/// Normalized placement cells never have a negative coordinate.
pub proof fn lemma_placement_cells_nonneg(pl: Placement)
    ensures
        forall|i: int| 0 <= i < 4 ==> placement_cell(pl, i).x >= 0 && placement_cell(pl, i).y >= 0,
{
}

/// Whether a cell lies within two columns and rows of the piece origin.
pub open spec fn cell_small(c: SpecCell) -> bool {
    -2 <= c.x <= 2 && -2 <= c.y <= 2
}

/// Canonical table coordinates are tiny: every offset lies within two cells
/// of the piece origin.
pub proof fn lemma_piece_table_bounds(p: PieceType)
    ensures
        forall|i: int| 0 <= i < 4 ==> #[trigger] cell_small(piece_table(p)[i]),
{
    assert forall|i: int| 0 <= i < 4 implies #[trigger] cell_small(piece_table(p)[i]) by {
        match p {
            PieceType::I => {},
            PieceType::O => {},
            PieceType::T => {},
            PieceType::L => {},
            PieceType::J => {},
            PieceType::S => {},
            PieceType::Z => {},
        }
    }
}

/// The canonical cell table of a piece type, as executable data.
pub fn canonical_cells(p: PieceType) -> (r: Cells)
    ensures
        forall|i: int| 0 <= i < 4 ==> cell_view(r[i]) == piece_table(p)[i],
{
    let e = EdgeSet { up: false, down: false, left: false, right: false };
    match p {
        PieceType::I => [
            (-1, 0, EdgeSet { right: true, ..e }),
            (0, 0, EdgeSet { left: true, right: true, ..e }),
            (1, 0, EdgeSet { left: true, right: true, ..e }),
            (2, 0, EdgeSet { left: true, ..e }),
        ],
        PieceType::O => [
            (0, 0, EdgeSet { up: true, right: true, ..e }),
            (1, 0, EdgeSet { up: true, left: true, ..e }),
            (0, 1, EdgeSet { down: true, right: true, ..e }),
            (1, 1, EdgeSet { down: true, left: true, ..e }),
        ],
        PieceType::L => [
            (-1, 0, EdgeSet { right: true, ..e }),
            (0, 0, EdgeSet { left: true, right: true, ..e }),
            (1, 0, EdgeSet { up: true, left: true, ..e }),
            (1, 1, EdgeSet { down: true, ..e }),
        ],
        PieceType::J => [
            (-1, 0, EdgeSet { up: true, right: true, ..e }),
            (0, 0, EdgeSet { left: true, right: true, ..e }),
            (1, 0, EdgeSet { left: true, ..e }),
            (-1, 1, EdgeSet { down: true, ..e }),
        ],
        PieceType::T => [
            (-1, 0, EdgeSet { right: true, ..e }),
            (0, 0, EdgeSet { up: true, left: true, right: true, ..e }),
            (1, 0, EdgeSet { left: true, ..e }),
            (0, 1, EdgeSet { down: true, ..e }),
        ],
        PieceType::S => [
            (-1, 0, EdgeSet { right: true, ..e }),
            (0, 0, EdgeSet { up: true, left: true, ..e }),
            (0, 1, EdgeSet { down: true, right: true, ..e }),
            (1, 1, EdgeSet { left: true, ..e }),
        ],
        PieceType::Z => [
            (-1, 1, EdgeSet { right: true, ..e }),
            (0, 1, EdgeSet { down: true, left: true, ..e }),
            (0, 0, EdgeSet { up: true, right: true, ..e }),
            (1, 0, EdgeSet { left: true, ..e }),
        ],
    }
}

/// Rotate one renderable cell in place of the specification transform.
fn rotate_cell_exec(r: Rotation, c: Cell) -> (out: Cell)
    requires
        c.0 > i32::MIN,
        c.1 > i32::MIN,
    ensures
        cell_view(out) == rotate_cell(r, cell_view(c)),
{
    match r {
        Rotation::North => c,
        Rotation::East => (
            c.1,
            -c.0,
            EdgeSet { up: c.2.left, right: c.2.up, down: c.2.right, left: c.2.down },
        ),
        Rotation::South => (
            -c.0,
            -c.1,
            EdgeSet { up: c.2.down, down: c.2.up, left: c.2.right, right: c.2.left },
        ),
        Rotation::West => (
            -c.1,
            c.0,
            EdgeSet { up: c.2.right, left: c.2.up, down: c.2.left, right: c.2.down },
        ),
    }
}

/// The canonical cell table of a piece type in a given rotation state.
pub fn oriented_cells(p: PieceType, r: Rotation) -> (out: Cells)
    ensures
        forall|i: int| 0 <= i < 4 ==> cell_view(out[i]) == rotate_cell(r, piece_table(p)[i]),
{
    let t = canonical_cells(p);
    proof {
        lemma_piece_table_bounds(p);
        assert(cell_small(piece_table(p)[0]));
        assert(cell_small(piece_table(p)[1]));
        assert(cell_small(piece_table(p)[2]));
        assert(cell_small(piece_table(p)[3]));
    }
    [
        rotate_cell_exec(r, t[0]),
        rotate_cell_exec(r, t[1]),
        rotate_cell_exec(r, t[2]),
        rotate_cell_exec(r, t[3]),
    ]
}

/// Apply a rotation to four cells at once. The one bound on the input is
/// the machine's: a coordinate of `i32::MIN` has no `i32` negation.
pub fn rotate_cells(c: Cells, r: Rotation) -> (out: Cells)
    requires
        forall|i: int| 0 <= i < 4 ==> #[trigger] c[i].0 > i32::MIN && c[i].1 > i32::MIN,
    ensures
        forall|i: int| 0 <= i < 4 ==> cell_view(out[i]) == rotate_cell(r, cell_view(c[i])),
{
    [
        rotate_cell_exec(r, c[0]),
        rotate_cell_exec(r, c[1]),
        rotate_cell_exec(r, c[2]),
        rotate_cell_exec(r, c[3]),
    ]
}

/// The smaller of two `i32` values.
fn min_i32(a: i32, b: i32) -> (r: i32)
    ensures
        r as int == imin(a as int, b as int),
{
    if a <= b {
        a
    } else {
        b
    }
}

impl Placement {
    /// Whether this placement's anchor lies within the range `cells`
    /// accepts.
    pub fn in_range(&self) -> (r: bool)
        ensures
            r == placement_in_range(*self),
    {
        -0x1000_0000 <= self.x && self.x <= 0x1000_0000 && -0x1000_0000 <= self.y && self.y
            <= 0x1000_0000
    }

    /// Expand this placement into its four renderable cells: rotate the
    /// canonical table, translate by the anchor, then shift the whole cell
    /// set so that every column and row is non-negative.
    #[verifier::rlimit(40)]
    pub fn cells(&self) -> (r: Cells)
        requires
            placement_in_range(*self),
        ensures
            forall|i: int| 0 <= i < 4 ==> cell_view(r[i]) == placement_cell(*self, i),
            forall|i: int| 0 <= i < 4 ==> r[i].0 >= 0 && r[i].1 >= 0,
    {
        let t = oriented_cells(self.piece, self.rotation);
        proof {
            lemma_piece_table_bounds(self.piece);
            assert(cell_small(piece_table(self.piece)[0]));
            assert(cell_small(piece_table(self.piece)[1]));
            assert(cell_small(piece_table(self.piece)[2]));
            assert(cell_small(piece_table(self.piece)[3]));
            assert(-2 <= t[0].0 <= 2 && -2 <= t[0].1 <= 2);
            assert(-2 <= t[1].0 <= 2 && -2 <= t[1].1 <= 2);
            assert(-2 <= t[2].0 <= 2 && -2 <= t[2].1 <= 2);
            assert(-2 <= t[3].0 <= 2 && -2 <= t[3].1 <= 2);
        }
        let c0 = (t[0].0 + self.x, t[0].1 + self.y, t[0].2);
        let c1 = (t[1].0 + self.x, t[1].1 + self.y, t[1].2);
        let c2 = (t[2].0 + self.x, t[2].1 + self.y, t[2].2);
        let c3 = (t[3].0 + self.x, t[3].1 + self.y, t[3].2);
        proof {
            assert(cell_view(c0) == raw_cell(*self, 0));
            assert(cell_view(c1) == raw_cell(*self, 1));
            assert(cell_view(c2) == raw_cell(*self, 2));
            assert(cell_view(c3) == raw_cell(*self, 3));
        }
        let min_x = min_i32(min_i32(c0.0, c1.0), min_i32(c2.0, c3.0));
        let min_y = min_i32(min_i32(c0.1, c1.1), min_i32(c2.1, c3.1));
        proof {
            assert(min_x as int == placement_min_x(*self));
            assert(min_y as int == placement_min_y(*self));
        }
        let dx: i32 = if min_x < 0 {
            -min_x
        } else {
            0
        };
        let dy: i32 = if min_y < 0 {
            -min_y
        } else {
            0
        };
        proof {
            assert(dx as int == placement_shift_x(*self));
            assert(dy as int == placement_shift_y(*self));
        }
        [
            (c0.0 + dx, c0.1 + dy, c0.2),
            (c1.0 + dx, c1.1 + dy, c1.2),
            (c2.0 + dx, c2.1 + dy, c2.2),
            (c3.0 + dx, c3.1 + dy, c3.2),
        ]
    }
}

} // verus!
