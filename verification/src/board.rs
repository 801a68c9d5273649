//! Board snapshots and solver-facing assembly: the ordered piece queue and
//! the packed occupancy bitmask.

use vstd::prelude::*;

verus! {

/// An immutable snapshot of the visible game state: ten columns of cells,
/// the piece in play, the held piece, and the upcoming queue (the preview,
/// possibly extended by one predicted entry).
///
/// A cell is empty exactly when it holds `-1`; any other value is an
/// occupied marker.
#[derive(Clone, Debug)]
pub struct Board {
    pub columns: Vec<Vec<i32>>,
    pub current_piece: Option<u32>,
    pub hold: Option<u32>,
    pub next_pieces: Vec<u32>,
}

/// What the sampling stage hands downstream: another snapshot, or the
/// terminal signal that the observed process has exited.
pub enum BoardEvent {
    Exit,
    Continue(Board),
}

/// The mathematical value of a column grid: a sequence of columns, each a
/// sequence of cell values indexed by row, row zero at the bottom.
pub open spec fn grid_view(cols: Vec<Vec<i32>>) -> Seq<Seq<i32>> {
    Seq::new(cols@.len(), |x: int| cols@[x]@)
}

/// A well-formed grid has exactly ten columns of twenty cells each.
pub open spec fn wf_columns(g: Seq<Seq<i32>>) -> bool {
    g.len() == 10 && forall|x: int| 0 <= x < 10 ==> (#[trigger] g[x]).len() == 20
}

/// Whether the cell at column `x`, row `y` is occupied.
pub open spec fn occupied(g: Seq<Seq<i32>>, x: int, y: int) -> bool {
    g[x][y] != -1
}

/// The sequence a piece option contributes to the queue: one entry when
/// present, none otherwise.
pub open spec fn opt_seq(o: Option<u32>) -> Seq<u32> {
    match o {
        Some(v) => seq![v],
        None => Seq::empty(),
    }
}

/// Bit `i` of a 64-bit mask.
pub open spec fn nth_bit(b: u64, i: u64) -> bool {
    (b >> i) & 1 == 1
}

/// The mask contribution of flat cell index `k` (column `k % 10`, row
/// `k / 10`): its single bit when the cell is occupied, zero otherwise.
pub open spec fn cell_mask(g: Seq<Seq<i32>>, k: int) -> u64 {
    if occupied(g, k % 10, k / 10) {
        1u64 << (k as u64)
    } else {
        0u64
    }
}

/// The occupancy mask restricted to the first `k` flat cell indices.
pub open spec fn pack_upto(g: Seq<Seq<i32>>, k: nat) -> u64
    decreases k,
{
    if k == 0 {
        0u64
    } else {
        pack_upto(g, (k - 1) as nat) | cell_mask(g, k - 1)
    }
}

/// The packed occupancy mask of a grid: one bit per cell of the bottom six
/// rows, the lowest row in the least significant ten bits. Rows further up
/// the stack are never encoded.
pub open spec fn pack_columns(g: Seq<Seq<i32>>) -> u64 {
    pack_upto(g, 60)
}

proof fn lemma_nth_bit_zero(i: u64)
    ensures
        !nth_bit(0u64, i),
{
    assert(((0u64 >> i) & 1) == 0) by (bit_vector);
}

proof fn lemma_nth_bit_or(a: u64, b: u64, i: u64)
    ensures
        nth_bit(a | b, i) == (nth_bit(a, i) || nth_bit(b, i)),
{
    assert((((a | b) >> i) & 1 == 1) == (((a >> i) & 1 == 1) || ((b >> i) & 1 == 1)))
        by (bit_vector);
}

proof fn lemma_nth_bit_shl(j: u64, i: u64)
    requires
        j < 64,
    ensures
        nth_bit(1u64 << j, i) == (i == j),
{
    assert((((1u64 << j) >> i) & 1 == 1) == (i == j)) by (bit_vector)
        requires
            j < 64,
    ;
}

proof fn lemma_or_zero(b: u64)
    ensures
        b | 0u64 == b,
{
    assert(b | 0u64 == b) by (bit_vector);
}

/// Bit `i` of the partial mask is set exactly when `i` is a flat cell index
/// below `k` whose cell is occupied.
proof fn lemma_pack_upto_bits(g: Seq<Seq<i32>>, k: nat)
    requires
        k <= 60,
    ensures
        forall|i: u64|
            #[trigger] nth_bit(pack_upto(g, k), i) == ((i as int) < k && occupied(
                g,
                (i as int) % 10,
                (i as int) / 10,
            )),
    decreases k,
{
    if k == 0 {
        assert forall|i: u64| !(#[trigger] nth_bit(pack_upto(g, 0), i)) by {
            lemma_nth_bit_zero(i);
        }
    } else {
        let km1 = (k - 1) as nat;
        lemma_pack_upto_bits(g, km1);
        let prev = pack_upto(g, km1);
        let m = cell_mask(g, k - 1);
        assert forall|i: u64|
            #[trigger] nth_bit(pack_upto(g, k), i) == ((i as int) < k && occupied(
                g,
                (i as int) % 10,
                (i as int) / 10,
            )) by {
            lemma_nth_bit_or(prev, m, i);
            if occupied(g, (k - 1) % 10, (k - 1) / 10) {
                lemma_nth_bit_shl((k - 1) as u64, i);
            } else {
                lemma_nth_bit_zero(i);
            }
        }
    }
}

/// Bit `i` of the full mask is set exactly when `i` addresses an occupied
/// cell of the bottom six rows.
pub proof fn lemma_pack_columns_bits(g: Seq<Seq<i32>>)
    ensures
        forall|i: u64|
            #[trigger] nth_bit(pack_columns(g), i) == ((i as int) < 60 && occupied(
                g,
                (i as int) % 10,
                (i as int) / 10,
            )),
{
    lemma_pack_upto_bits(g, 60);
}

/// Whether a column grid has exactly ten columns of twenty cells.
pub fn columns_well_formed(cols: &Vec<Vec<i32>>) -> (r: bool)
    ensures
        r == wf_columns(grid_view(*cols)),
{
    if cols.len() != 10 {
        proof {
            assert(grid_view(*cols).len() != 10);
        }
        return false;
    }
    let mut x: usize = 0;
    while x < 10
        invariant
            cols@.len() == 10,
            x <= 10,
            forall|i: int| 0 <= i < x ==> (#[trigger] grid_view(*cols)[i]).len() == 20,
        decreases 10 - x,
    {
        if cols[x].len() != 20 {
            proof {
                assert(grid_view(*cols)[x as int].len() != 20);
            }
            return false;
        }
        proof {
            assert(grid_view(*cols)[x as int].len() == 20);
        }
        x += 1;
    }
    true
}

impl Board {
    /// The mathematical value of this board's column grid.
    pub open spec fn grid(&self) -> Seq<Seq<i32>> {
        grid_view(self.columns)
    }

    /// A well-formed board holds ten columns of twenty cells.
    pub open spec fn wf(&self) -> bool {
        wf_columns(self.grid())
    }

    /// Whether this board's grid has exactly ten columns of twenty cells —
    /// what `get_bitboard` asks of its input.
    pub fn is_well_formed(&self) -> (r: bool)
        ensures
            r == self.wf(),
    {
        columns_well_formed(&self.columns)
    }

    /// The solver-facing piece queue: the current piece when present, then
    /// the held piece when present, then the upcoming queue in reveal order.
    pub fn get_queue(&self) -> (r: Vec<u32>)
        ensures
            r@ == opt_seq(self.current_piece) + opt_seq(self.hold) + self.next_pieces@,
    {
        let mut queue: Vec<u32> = Vec::new();
        if let Some(c) = self.current_piece {
            queue.push(c);
        }
        if let Some(h) = self.hold {
            queue.push(h);
        }
        let ghost head = queue@;
        let mut i: usize = 0;
        while i < self.next_pieces.len()
            invariant
                i <= self.next_pieces.len(),
                queue@ == head + self.next_pieces@.take(i as int),
            decreases self.next_pieces.len() - i,
        {
            queue.push(self.next_pieces[i]);
            proof {
                assert(head + self.next_pieces@.take(i as int) + seq![self.next_pieces@[i as int]]
                    =~= head + self.next_pieces@.take(i + 1));
            }
            i += 1;
        }
        proof {
            assert(self.next_pieces@.take(self.next_pieces@.len() as int) =~= self.next_pieces@);
            assert(queue@ =~= opt_seq(self.current_piece) + opt_seq(self.hold)
                + self.next_pieces@);
        }
        queue
    }

    /// Pack the bottom six rows of the grid into a 64-bit occupancy mask,
    /// the lowest row in the least significant ten bits.
    pub fn get_bitboard(&self) -> (r: u64)
        requires
            self.wf(),
        ensures
            r == pack_columns(self.grid()),
            forall|i: u64|
                #[trigger] nth_bit(r, i) == ((i as int) < 60 && occupied(
                    self.grid(),
                    (i as int) % 10,
                    (i as int) / 10,
                )),
    {
        let mut bits: u64 = 0;
        let mut k: usize = 0;
        while k < 60
            invariant
                self.wf(),
                k <= 60,
                bits == pack_upto(self.grid(), k as nat),
            decreases 60 - k,
        {
            let x = k % 10;
            let y = k / 10;
            proof {
                assert(self.grid().len() == self.columns@.len());
                assert(self.grid()[x as int] == self.columns@[x as int]@);
            }
            let cell = self.columns[x][y];
            proof {
                assert(cell == self.grid()[x as int][y as int]);
            }
            if cell != -1 {
                bits = bits | (1u64 << (k as u64));
            } else {
                proof {
                    lemma_or_zero(bits);
                }
            }
            proof {
                assert(pack_upto(self.grid(), (k + 1) as nat) == pack_upto(self.grid(), k as nat)
                    | cell_mask(self.grid(), k as int));
            }
            k += 1;
        }
        proof {
            lemma_pack_columns_bits(self.grid());
        }
        bits
    }
}

/// The grid a mask expands to: ten columns of twenty cells, occupied (`0`)
/// exactly where the mask has a set bit in the bottom six rows, empty
/// (`-1`) everywhere else.
pub open spec fn expand_spec(mask: u64) -> Seq<Seq<i32>> {
    Seq::new(
        10,
        |x: int|
            Seq::new(
                20,
                |y: int|
                    if y < 6 && nth_bit(mask, (10 * y + x) as u64) {
                        0i32
                    } else {
                        -1i32
                    },
            ),
    )
}

/// Expand an occupancy mask back into a ten-by-twenty grid; the bottom six
/// rows mirror the mask and the rows above come back empty.
pub fn expand_bitboard(mask: u64) -> (r: Vec<Vec<i32>>)
    ensures
        grid_view(r) == expand_spec(mask),
        wf_columns(grid_view(r)),
{
    let mut cols: Vec<Vec<i32>> = Vec::new();
    let mut x: usize = 0;
    while x < 10
        invariant
            x <= 10,
            cols@.len() == x,
            forall|xi: int| 0 <= xi < x ==> #[trigger] cols@[xi]@ =~= expand_spec(mask)[xi],
        decreases 10 - x,
    {
        let mut col: Vec<i32> = Vec::new();
        let mut y: usize = 0;
        while y < 20
            invariant
                x < 10,
                y <= 20,
                col@.len() == y,
                forall|yi: int| 0 <= yi < y ==> #[trigger] col@[yi] == expand_spec(mask)[x as int][yi],
            decreases 20 - y,
        {
            let v: i32 = if y < 6 {
                let i = (10 * y + x) as u64;
                if (mask >> i) & 1 == 1 {
                    0
                } else {
                    -1
                }
            } else {
                -1
            };
            col.push(v);
            y += 1;
        }
        proof {
            assert(col@ =~= expand_spec(mask)[x as int]);
        }
        cols.push(col);
        x += 1;
    }
    proof {
        assert(grid_view(cols) =~~= expand_spec(mask));
    }
    cols
}

/// Occupancy packing round trip: expanding a packed grid reproduces the
/// bottom six rows exactly, and every row above comes back empty — those
/// rows are never encoded in the mask.
pub proof fn lemma_pack_roundtrip(g: Seq<Seq<i32>>)
    requires
        wf_columns(g),
    ensures
        forall|x: int, y: int|
            0 <= x < 10 && 0 <= y < 20 ==> #[trigger] occupied(expand_spec(pack_columns(g)), x, y)
                == (y < 6 && occupied(g, x, y)),
{
    lemma_pack_columns_bits(g);
    assert forall|x: int, y: int|
        0 <= x < 10 && 0 <= y < 20 implies #[trigger] occupied(expand_spec(pack_columns(g)), x, y)
        == (y < 6 && occupied(g, x, y)) by {
        if y < 6 {
            let i = 10 * y + x;
            assert((10 * y + x) % 10 == x && (10 * y + x) / 10 == y) by (nonlinear_arith)
                requires
                    0 <= x < 10 && 0 <= y,
            ;
            assert(0 <= i < 60);
            assert(nth_bit(pack_columns(g), i as u64) == occupied(g, x, y));
        }
    }
}

/// The mask depends only on the bottom six rows: two grids that agree there
/// pack to the same mask.
pub proof fn lemma_pack_ignores_upper(g1: Seq<Seq<i32>>, g2: Seq<Seq<i32>>)
    requires
        wf_columns(g1),
        wf_columns(g2),
        forall|x: int, y: int|
            0 <= x < 10 && 0 <= y < 6 ==> #[trigger] occupied(g1, x, y) == occupied(g2, x, y),
    ensures
        pack_columns(g1) == pack_columns(g2),
{
    lemma_pack_upto_eq(g1, g2, 60);
}

proof fn lemma_pack_upto_eq(g1: Seq<Seq<i32>>, g2: Seq<Seq<i32>>, k: nat)
    requires
        k <= 60,
        forall|x: int, y: int|
            0 <= x < 10 && 0 <= y < 6 ==> #[trigger] occupied(g1, x, y) == occupied(g2, x, y),
    ensures
        pack_upto(g1, k) == pack_upto(g2, k),
    decreases k,
{
    if k > 0 {
        lemma_pack_upto_eq(g1, g2, (k - 1) as nat);
        assert(0 <= (k - 1) % 10 < 10 && 0 <= (k - 1) / 10 < 6);
        assert(occupied(g1, (k - 1) % 10, (k - 1) / 10) == occupied(
            g2,
            (k - 1) % 10,
            (k - 1) / 10,
        ));
    }
}

} // verus!
