//! Piece kinds, their fixed 4x4 footprints, and the footprint-relative
//! geometry used to place a falling piece on the grid: collision tests,
//! merging into the settled cells, and bounds-checked lateral movement.

use vstd::prelude::*;

use crate::board::BlockCommand;
use crate::grid::CELLS_HIGH;
use crate::grid::CELLS_WIDE;
use crate::grid::Cells;
use crate::grid::cell_at;
use crate::grid::clear_full_rows;
use crate::grid::in_grid;
use crate::grid::is_clear_of;
use crate::grid::set_cell;

verus! {

/// A piece kind: one of the seven standard tetromino shapes.
#[derive(Copy, Clone, PartialEq, Eq, Structural, Debug)]
pub enum Block {
    T,
    I,
    O,
    S,
    Z,
    J,
    L,
}

/// The fixed footprint of a kind: whether the footprint-local sub-cell
/// `(x, y)` is occupied, with `x` the column and `y` the row from the bottom.
/// Every occupied sub-cell lies in `[0, 4) x [0, 4)`.
pub open spec fn block_shape(b: Block, x: int, y: int) -> bool {
    match b {
        Block::T => (x == 1 && y == 0) || (y == 1 && 0 <= x <= 2),
        Block::I => x == 0 && 0 <= y <= 3,
        Block::O => 0 <= x <= 1 && 0 <= y <= 1,
        Block::S => (y == 0 && 0 <= x <= 1) || (y == 1 && 1 <= x <= 2),
        Block::Z => (y == 0 && 1 <= x <= 2) || (y == 1 && 0 <= x <= 1),
        Block::J => (y == 0 && x == 2) || (y == 1 && 0 <= x <= 2),
        Block::L => (y == 0 && x == 0) || (y == 1 && 0 <= x <= 2),
    }
}

/// Every kind occupies at least one sub-cell of its leftmost column; the
/// anchor column therefore coincides with the leftmost occupied column.
pub proof fn lemma_shape_column0(b: Block)
    ensures
        exists|ly: int| 0 <= ly < 4 && #[trigger] block_shape(b, 0, ly),
{
    match b {
        Block::T => assert(block_shape(b, 0, 1)),
        Block::I => assert(block_shape(b, 0, 0)),
        Block::O => assert(block_shape(b, 0, 0)),
        Block::S => assert(block_shape(b, 0, 0)),
        Block::Z => assert(block_shape(b, 0, 1)),
        Block::J => assert(block_shape(b, 0, 1)),
        Block::L => assert(block_shape(b, 0, 0)),
    }
}

/// The kind standing at a given position of the fixed list of all seven
/// kinds, used to turn a drawn index into a piece kind.
pub open spec fn block_of_index(i: int) -> Block {
    if i == 0 {
        Block::T
    } else if i == 1 {
        Block::I
    } else if i == 2 {
        Block::O
    } else if i == 3 {
        Block::S
    } else if i == 4 {
        Block::Z
    } else if i == 5 {
        Block::J
    } else {
        Block::L
    }
}

impl Block {
    /// The kind for a drawn index, covering all seven kinds.
    pub fn from_index(i: usize) -> (b: Block)
        requires
            i < 7,
        ensures
            b == block_of_index(i as int),
    {
        match i {
            0 => Block::T,
            1 => Block::I,
            2 => Block::O,
            3 => Block::S,
            4 => Block::Z,
            5 => Block::J,
            _ => Block::L,
        }
    }

    /// The footprint of this kind as a boolean matrix, indexed
    /// `[column][row]` with row 0 at the bottom.
    pub fn cells_taken(&self) -> (r: [[bool; 4]; 4])
        ensures
            forall|x: int, y: int|
                0 <= x < 4 && 0 <= y < 4 ==> r@[x]@[y] == block_shape(*self, x, y),
    {
        match *self {
            Block::T => [
                [false, true, false, false],
                [true, true, false, false],
                [false, true, false, false],
                [false, false, false, false],
            ],
            Block::I => [
                [true, true, true, true],
                [false, false, false, false],
                [false, false, false, false],
                [false, false, false, false],
            ],
            Block::O => [
                [true, true, false, false],
                [true, true, false, false],
                [false, false, false, false],
                [false, false, false, false],
            ],
            Block::S => [
                [true, false, false, false],
                [true, true, false, false],
                [false, true, false, false],
                [false, false, false, false],
            ],
            Block::Z => [
                [false, true, false, false],
                [true, true, false, false],
                [true, false, false, false],
                [false, false, false, false],
            ],
            Block::J => [
                [false, true, false, false],
                [false, true, false, false],
                [true, true, false, false],
                [false, false, false, false],
            ],
            Block::L => [
                [true, true, false, false],
                [false, true, false, false],
                [false, true, false, false],
                [false, false, false, false],
            ],
        }
    }
}

/// A falling piece: a kind plus the grid position of its footprint's
/// lower-left corner.
#[derive(Copy, Clone, PartialEq, Eq, Structural, Debug)]
pub struct FallingBlock {
    pub block: Block,
    pub x: usize,
    pub y: usize,
}

/// The value of cell `(x, y)` after merging `fb` into `cells`: its settled
/// value ORed with the footprint sub-cell that maps onto it, if any.
pub open spec fn merged_cell(fb: FallingBlock, cells: Cells, x: int, y: int) -> bool {
    cell_at(cells, x, y) || (fb.x <= x < fb.x + 4 && fb.y <= y < fb.y + 4 && block_shape(
        fb.block,
        x - fb.x,
        y - fb.y,
    ))
}

/// `after` is `before` with the occupied footprint cells of `fb` ORed in.
pub open spec fn is_merge_of(fb: FallingBlock, before: Cells, after: Cells) -> bool {
    forall|x: int, y: int|
        in_grid(x, y) ==> #[trigger] cell_at(after, x, y) == merged_cell(fb, before, x, y)
}

/// Whether shifting `fb` by `dx` columns keeps every occupied sub-cell of its
/// footprint within the horizontal bounds of the grid.
pub open spec fn can_shift(fb: FallingBlock, dx: int) -> bool {
    forall|lx: int, ly: int|
        0 <= lx < 4 && 0 <= ly < 4 && #[trigger] block_shape(fb.block, lx, ly) ==> 0 <= fb.x + lx
            + dx < CELLS_WIDE
}

/// The bounds-checked lateral translation of `fb` under `cmd`: the piece
/// moved one column, or nothing where an occupied sub-cell would leave the
/// grid; rotation commands leave the piece as it is.
pub open spec fn lateral_result(fb: FallingBlock, cmd: BlockCommand) -> Option<FallingBlock> {
    match cmd {
        BlockCommand::MovL => if can_shift(fb, -1) {
            Some(FallingBlock { block: fb.block, x: (fb.x - 1) as usize, y: fb.y })
        } else {
            None
        },
        BlockCommand::MovR => if can_shift(fb, 1) {
            Some(FallingBlock { block: fb.block, x: (fb.x + 1) as usize, y: fb.y })
        } else {
            None
        },
        BlockCommand::RotL => Some(fb),
        BlockCommand::RotR => Some(fb),
    }
}

/// Whether every occupied sub-cell of `fb`'s footprint maps onto the grid.
pub open spec fn piece_in_bounds(fb: FallingBlock) -> bool {
    forall|lx: int, ly: int|
        0 <= lx < 4 && 0 <= ly < 4 && #[trigger] block_shape(fb.block, lx, ly) ==> fb.x + lx
            < CELLS_WIDE && fb.y + ly < CELLS_HIGH
}

/// Law: a placement collides exactly when an occupied sub-cell maps out of
/// bounds or onto an occupied settled cell (`collides` states this); in
/// particular, on an empty grid any placement whose occupied sub-cells all
/// map onto the grid is free of collision.
pub proof fn lemma_no_collision_on_empty(fb: FallingBlock, cells: Cells)
    requires
        forall|x: int, y: int| in_grid(x, y) ==> !(#[trigger] cell_at(cells, x, y)),
        piece_in_bounds(fb),
    ensures
        !collides(fb, cells),
{
}

/// Whether placing `fb` collides: some occupied sub-cell of its footprint
/// maps outside the grid or onto an already-occupied settled cell.
pub open spec fn collides(fb: FallingBlock, cells: Cells) -> bool {
    exists|lx: int, ly: int|
        0 <= lx < 4 && 0 <= ly < 4 && #[trigger] block_shape(fb.block, lx, ly) && (fb.x + lx
            >= CELLS_WIDE || fb.y + ly >= CELLS_HIGH || cell_at(cells, fb.x + lx, fb.y + ly))
}

impl FallingBlock {
    /// Whether this piece, at its current anchor, collides with the grid
    /// bounds or the settled cells.
    pub fn check_collision(&self, cells: &Cells) -> (r: bool)
        ensures
            r == collides(*self, *cells),
    {
        let cells_taken = self.block.cells_taken();
        let mut lx: usize = 0;
        while lx < 4
            invariant
                lx <= 4,
                forall|i: int, j: int|
                    0 <= i < 4 && 0 <= j < 4 ==> cells_taken@[i]@[j] == block_shape(
                        self.block,
                        i,
                        j,
                    ),
                forall|i: int, j: int|
                    0 <= i < lx && 0 <= j < 4 && #[trigger] block_shape(self.block, i, j)
                        ==> self.x + i < CELLS_WIDE && self.y + j < CELLS_HIGH && !cell_at(
                        *cells,
                        self.x + i,
                        self.y + j,
                    ),
            decreases 4 - lx,
        {
            let mut ly: usize = 0;
            while ly < 4
                invariant
                    lx < 4,
                    ly <= 4,
                    forall|i: int, j: int|
                        0 <= i < 4 && 0 <= j < 4 ==> cells_taken@[i]@[j] == block_shape(
                            self.block,
                            i,
                            j,
                        ),
                    forall|i: int, j: int|
                        0 <= i < lx && 0 <= j < 4 && #[trigger] block_shape(self.block, i, j)
                            ==> self.x + i < CELLS_WIDE && self.y + j < CELLS_HIGH && !cell_at(
                            *cells,
                            self.x + i,
                            self.y + j,
                        ),
                    forall|j: int|
                        0 <= j < ly && #[trigger] block_shape(self.block, lx as int, j) ==> self.x
                            + lx < CELLS_WIDE && self.y + j < CELLS_HIGH && !cell_at(
                            *cells,
                            self.x + lx as int,
                            self.y + j,
                        ),
                decreases 4 - ly,
            {
                if cells_taken[lx][ly] {
                    assert(block_shape(self.block, lx as int, ly as int));
                    if self.x >= CELLS_WIDE - lx || self.y >= CELLS_HIGH - ly {
                        return true;
                    }
                    if cells[self.x + lx][self.y + ly] {
                        assert(cell_at(*cells, self.x + lx, self.y + ly));
                        return true;
                    }
                    assert(!cell_at(*cells, self.x + lx, self.y + ly));
                } else {
                    assert(!block_shape(self.block, lx as int, ly as int));
                }
                ly = ly + 1;
            }
            lx = lx + 1;
        }
        false
    }

    /// Merges this piece into the settled cells: every occupied sub-cell that
    /// maps onto the grid is set; no cell is ever cleared.
    pub fn merge_cells(&self, cells: Cells) -> (r: Cells)
        ensures
            is_merge_of(*self, cells, r),
            forall|x: int, y: int|
                in_grid(x, y) && cell_at(cells, x, y) ==> #[trigger] cell_at(r, x, y),
    {
        let cells_taken = self.block.cells_taken();
        let mut r = cells;
        let mut gx: usize = 0;
        while gx < CELLS_WIDE
            invariant
                gx <= CELLS_WIDE,
                forall|i: int, j: int|
                    0 <= i < 4 && 0 <= j < 4 ==> cells_taken@[i]@[j] == block_shape(
                        self.block,
                        i,
                        j,
                    ),
                forall|i: int, j: int|
                    in_grid(i, j) && i < gx ==> #[trigger] cell_at(r, i, j) == merged_cell(
                        *self,
                        cells,
                        i,
                        j,
                    ),
                forall|i: int, j: int|
                    in_grid(i, j) && i >= gx ==> #[trigger] cell_at(r, i, j) == cell_at(
                        cells,
                        i,
                        j,
                    ),
            decreases CELLS_WIDE - gx,
        {
            let mut gy: usize = 0;
            while gy < CELLS_HIGH
                invariant
                    gx < CELLS_WIDE,
                    gy <= CELLS_HIGH,
                    forall|i: int, j: int|
                        0 <= i < 4 && 0 <= j < 4 ==> cells_taken@[i]@[j] == block_shape(
                            self.block,
                            i,
                            j,
                        ),
                    forall|i: int, j: int|
                        in_grid(i, j) && i < gx ==> #[trigger] cell_at(r, i, j) == merged_cell(
                            *self,
                            cells,
                            i,
                            j,
                        ),
                    forall|j: int|
                        0 <= j < gy ==> #[trigger] cell_at(r, gx as int, j) == merged_cell(
                            *self,
                            cells,
                            gx as int,
                            j,
                        ),
                    forall|j: int|
                        gy <= j < CELLS_HIGH ==> #[trigger] cell_at(r, gx as int, j) == cell_at(
                            cells,
                            gx as int,
                            j,
                        ),
                    forall|i: int, j: int|
                        in_grid(i, j) && i > gx ==> #[trigger] cell_at(r, i, j) == cell_at(
                            cells,
                            i,
                            j,
                        ),
                decreases CELLS_HIGH - gy,
            {
                let occupied = gx >= self.x && gx - self.x < 4 && gy >= self.y && gy - self.y < 4
                    && cells_taken[gx - self.x][gy - self.y];
                if occupied {
                    set_cell(&mut r, gx, gy, true);
                }
                assert(cell_at(r, gx as int, gy as int) == merged_cell(
                    *self,
                    cells,
                    gx as int,
                    gy as int,
                ));
                gy = gy + 1;
            }
            gx = gx + 1;
        }
        r
    }

    /// Settles this piece: merges it into the cells and then clears every
    /// full row, as happens when a falling piece comes to rest.
    pub fn insert_into_cells(&self, cells: Cells) -> (r: Cells)
        ensures
            exists|m: Cells| #[trigger] is_merge_of(*self, cells, m) && is_clear_of(m, r),
    {
        let merged = self.merge_cells(cells);
        let cleared = clear_full_rows(merged);
        assert(is_merge_of(*self, cells, merged) && is_clear_of(merged, cleared));
        cleared
    }

    /// The piece moved one column left or right, or `None` where that would
    /// place an occupied sub-cell outside the grid's horizontal bounds. The
    /// check is purely geometric: settled cells are ignored, and the caller
    /// performs a collision check before accepting the move. Rotation
    /// commands return the piece unchanged.
    pub fn move_within_bounds(&self, block_command: BlockCommand) -> (r: Option<Self>)
        ensures
            r == lateral_result(*self, block_command),
            block_command == BlockCommand::MovL && self.x == 0 ==> r is None,
            block_command == BlockCommand::MovR && (exists|lx: int, ly: int|
                0 <= lx < 4 && 0 <= ly < 4 && #[trigger] block_shape(self.block, lx, ly) && self.x
                    + lx == CELLS_WIDE - 1) ==> r is None,
    {
        proof {
            lemma_shape_column0(self.block);
        }
        match block_command {
            BlockCommand::MovL => {
                let cells_taken = self.block.cells_taken();
                let mut lx: usize = 0;
                while lx < 4
                    invariant
                        block_command == BlockCommand::MovL,
                        lx <= 4,
                        forall|i: int, j: int|
                            0 <= i < 4 && 0 <= j < 4 ==> cells_taken@[i]@[j] == block_shape(
                                self.block,
                                i,
                                j,
                            ),
                        forall|i: int, j: int|
                            0 <= i < lx && 0 <= j < 4 && #[trigger] block_shape(self.block, i, j)
                                ==> 0 <= self.x + i - 1 < CELLS_WIDE,
                    decreases 4 - lx,
                {
                    let mut ly: usize = 0;
                    while ly < 4
                        invariant
                            block_command == BlockCommand::MovL,
                            lx < 4,
                            ly <= 4,
                            forall|i: int, j: int|
                                0 <= i < 4 && 0 <= j < 4 ==> cells_taken@[i]@[j] == block_shape(
                                    self.block,
                                    i,
                                    j,
                                ),
                            forall|i: int, j: int|
                                0 <= i < lx && 0 <= j < 4 && #[trigger] block_shape(
                                    self.block,
                                    i,
                                    j,
                                ) ==> 0 <= self.x + i - 1 < CELLS_WIDE,
                            forall|j: int|
                                0 <= j < ly && #[trigger] block_shape(self.block, lx as int, j)
                                    ==> 0 <= self.x + lx - 1 < CELLS_WIDE,
                        decreases 4 - ly,
                    {
                        if cells_taken[lx][ly] {
                            assert(block_shape(self.block, lx as int, ly as int));
                            if (lx == 0 && self.x == 0) || self.x > CELLS_WIDE - lx {
                                assert(!(0 <= self.x + lx as int - 1 < CELLS_WIDE));
                                assert(!can_shift(*self, -1));
                                return None;
                            }
                        }
                        ly = ly + 1;
                    }
                    lx = lx + 1;
                }
                Some(FallingBlock { block: self.block, x: self.x - 1, y: self.y })
            },
            BlockCommand::MovR => {
                let cells_taken = self.block.cells_taken();
                let mut lx: usize = 0;
                while lx < 4
                    invariant
                        block_command == BlockCommand::MovR,
                        lx <= 4,
                        forall|i: int, j: int|
                            0 <= i < 4 && 0 <= j < 4 ==> cells_taken@[i]@[j] == block_shape(
                                self.block,
                                i,
                                j,
                            ),
                        forall|i: int, j: int|
                            0 <= i < lx && 0 <= j < 4 && #[trigger] block_shape(self.block, i, j)
                                ==> 0 <= self.x + i + 1 < CELLS_WIDE,
                    decreases 4 - lx,
                {
                    let mut ly: usize = 0;
                    while ly < 4
                        invariant
                            block_command == BlockCommand::MovR,
                            lx < 4,
                            ly <= 4,
                            forall|i: int, j: int|
                                0 <= i < 4 && 0 <= j < 4 ==> cells_taken@[i]@[j] == block_shape(
                                    self.block,
                                    i,
                                    j,
                                ),
                            forall|i: int, j: int|
                                0 <= i < lx && 0 <= j < 4 && #[trigger] block_shape(
                                    self.block,
                                    i,
                                    j,
                                ) ==> 0 <= self.x + i + 1 < CELLS_WIDE,
                            forall|j: int|
                                0 <= j < ly && #[trigger] block_shape(self.block, lx as int, j)
                                    ==> 0 <= self.x + lx + 1 < CELLS_WIDE,
                        decreases 4 - ly,
                    {
                        if cells_taken[lx][ly] {
                            assert(block_shape(self.block, lx as int, ly as int));
                            if self.x >= CELLS_WIDE - lx - 1 {
                                assert(!(0 <= self.x + lx as int + 1 < CELLS_WIDE));
                                assert(!can_shift(*self, 1));
                                return None;
                            }
                        }
                        ly = ly + 1;
                    }
                    lx = lx + 1;
                }
                Some(FallingBlock { block: self.block, x: self.x + 1, y: self.y })
            },
            BlockCommand::RotL => Some(*self),
            BlockCommand::RotR => Some(*self),
        }
    }
}

} // verus!
