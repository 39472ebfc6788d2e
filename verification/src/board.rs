//! The board: settled cells plus the optional falling piece, mutated only by
//! gravity ticks (`step`) and lateral move commands (`input`).

use vstd::prelude::*;

use crate::grid::CELLS_HIGH;
use crate::grid::CELLS_WIDE;
use crate::grid::Cells;
use crate::grid::is_clear_of;
use crate::piece::Block;
use crate::piece::FallingBlock;
use crate::piece::block_of_index;
use crate::piece::collides;
use crate::piece::is_merge_of;
use crate::piece::lateral_result;

verus! {

/// A lateral or rotational intent submitted by the driver. Rotation commands
/// are accepted and leave the piece unchanged.
#[derive(Copy, Clone, PartialEq, Eq, Structural, Debug)]
pub enum BlockCommand {
    MovL,
    MovR,
    RotL,
    RotR,
}

/// The command set as the driver submits it.
pub type UserInput = BlockCommand;

/// The piece a spawn places: the given kind at the canonical spawn anchor,
/// horizontally centred and close enough to the top that its full footprint
/// starts on the board.
pub open spec fn spawn_piece(b: Block) -> FallingBlock {
    FallingBlock { block: b, x: CELLS_WIDE / 2, y: (CELLS_HIGH - 4) as usize }
}

/// The same piece one row lower.
pub open spec fn shifted_down(fb: FallingBlock) -> FallingBlock {
    FallingBlock { block: fb.block, x: fb.x, y: (fb.y - 1) as usize }
}

/// Relies on rand::random_range: a value drawn from the non-empty range
/// `0..n` is below `n`. Nothing further is assumed of the draw.
#[verifier::external_body]
fn random_index(n: usize) -> (r: usize)
    requires
        n > 0,
    ensures
        r < n,
{
    rand::random_range(0..n)
}

/// The settled grid together with the falling piece, if one is descending.
#[derive(Clone, Debug)]
pub struct Board {
    pub cells: Cells,
    pub falling_block: Option<FallingBlock>,
}

impl Board {
    /// The composed read-only view for a renderer: the settled cells with
    /// the falling piece's occupied cells overlaid, if one is present.
    pub fn render(&self) -> (r: Cells)
        ensures
            match self.falling_block {
                Some(fb) => is_merge_of(fb, self.cells, r),
                None => r == self.cells,
            },
    {
        match self.falling_block {
            Some(fb) => fb.merge_cells(self.cells),
            None => self.cells,
        }
    }

    /// Places `block` at the canonical spawn anchor. Fails, leaving the
    /// board unchanged, exactly when the spawned footprint overlaps a
    /// settled cell: the game-over condition.
    pub fn spawn(&mut self, block: Block) -> (r: bool)
        ensures
            final(self).cells == old(self).cells,
            r == !collides(spawn_piece(block), old(self).cells),
            r ==> final(self).falling_block == Some(spawn_piece(block)),
            !r ==> final(self).falling_block == old(self).falling_block,
    {
        let new_falling_block = FallingBlock {
            block,
            x: CELLS_WIDE / 2,
            y: CELLS_HIGH - 4,
        };
        if new_falling_block.check_collision(&self.cells) {
            false
        } else {
            self.falling_block = Some(new_falling_block);
            true
        }
    }

    /// Spawns a piece of a kind drawn at random. The cells are untouched;
    /// on failure the falling piece is left as it was, and some kind's spawn
    /// footprint collides with the settled cells.
    fn new_falling_block(&mut self) -> (r: bool)
        ensures
            final(self).cells == old(self).cells,
            r ==> exists|b: Block|
                final(self).falling_block == Some(#[trigger] spawn_piece(b)) && !collides(
                    spawn_piece(b),
                    old(self).cells,
                ),
            !r ==> final(self).falling_block == old(self).falling_block && exists|b: Block|
                collides(#[trigger] spawn_piece(b), old(self).cells),
    {
        let idx = random_index(7);
        let block = Block::from_index(idx);
        self.spawn(block)
    }

    /// Settles the falling piece, if any: merges it into the cells, clears
    /// every full row, and removes the piece.
    fn insert_block_into_cells(&mut self)
        ensures
            match old(self).falling_block {
                Some(fb) => final(self).falling_block is None && exists|m: Cells|
                    #[trigger] is_merge_of(fb, old(self).cells, m) && is_clear_of(
                        m,
                        final(self).cells,
                    ),
                None => *final(self) == *old(self),
            },
    {
        if let Some(falling_block) = self.falling_block {
            let new_cells = falling_block.insert_into_cells(self.cells);
            self.cells = new_cells;
            self.falling_block = None;
        }
    }

    /// One gravity tick. With no falling piece, a spawn is attempted, and
    /// the result is `false` — game over — exactly when it fails. A piece
    /// whose one-row-lower position is free descends one row. A piece that
    /// can descend no further is settled: merged, full rows cleared, and the
    /// falling piece removed.
    pub fn step(&mut self) -> (alive: bool)
        ensures
            match old(self).falling_block {
                None => {
                    &&& final(self).cells == old(self).cells
                    &&& (alive <==> final(self).falling_block is Some)
                    &&& (alive ==> exists|b: Block|
                        final(self).falling_block == Some(#[trigger] spawn_piece(b)) && !collides(
                            spawn_piece(b),
                            old(self).cells,
                        ))
                    &&& (!alive ==> final(self).falling_block is None && exists|b: Block|
                        collides(#[trigger] spawn_piece(b), old(self).cells))
                },
                Some(fb) => {
                    &&& alive
                    &&& if fb.y > 0 && !collides(shifted_down(fb), old(self).cells) {
                        final(self).cells == old(self).cells && final(self).falling_block == Some(
                            shifted_down(fb),
                        )
                    } else {
                        final(self).falling_block is None && exists|m: Cells|
                            #[trigger] is_merge_of(fb, old(self).cells, m) && is_clear_of(
                                m,
                                final(self).cells,
                            )
                    }
                },
            },
    {
        match self.falling_block {
            None => self.new_falling_block(),
            Some(falling_block) => {
                if falling_block.y > 0 {
                    let new_falling_block = FallingBlock {
                        block: falling_block.block,
                        x: falling_block.x,
                        y: falling_block.y - 1,
                    };
                    if new_falling_block.check_collision(&self.cells) {
                        self.insert_block_into_cells();
                        true
                    } else {
                        self.falling_block = Some(new_falling_block);
                        true
                    }
                } else {
                    self.insert_block_into_cells();
                    true
                }
            },
        }
    }

    /// Applies a lateral move command. The piece moves exactly when the
    /// bounds-checked translation exists and does not collide with the
    /// settled cells; otherwise, and on a board with no falling piece, the
    /// board is left identical.
    pub fn input(&mut self, input: UserInput)
        ensures
            final(self).cells == old(self).cells,
            match old(self).falling_block {
                None => *final(self) == *old(self),
                Some(fb) => match lateral_result(fb, input) {
                    Some(moved) => if !collides(moved, old(self).cells) {
                        final(self).falling_block == Some(moved)
                    } else {
                        final(self).falling_block == Some(fb)
                    },
                    None => final(self).falling_block == Some(fb),
                },
            },
    {
        if let Some(falling_block) = self.falling_block {
            if let Some(new_falling_block) = falling_block.move_within_bounds(input) {
                if !new_falling_block.check_collision(&self.cells) {
                    self.falling_block = Some(new_falling_block);
                }
            }
        }
    }
}

} // verus!
